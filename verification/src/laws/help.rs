//! What is shown while a call is being written, and what can be done about a name.

use vstd::prelude::*;

use crate::laws::remarks::{lemma_shows, shows};
use crate::model::Position;
use crate::spec::actions as sac;
use crate::spec::bindings as sg;
use crate::spec::completion as sco;
use crate::spec::cursor as su;
use crate::spec::model::{CodeAction, ParsedFile, Symbol};
use crate::spec::modules as sx;
use crate::spec::query as sqy;
use crate::spec::query::Callee;
use crate::spec::resolve::Ref;
use crate::spec::text as st;
use crate::spec::text::Text;
use crate::spec::workspace as sw;
use crate::spec::workspace::Workspace;

verus! {

// ---------------------------------------------------------------------------
// Arguments
// ---------------------------------------------------------------------------

proof fn lemma_argument(args: Seq<Text>, name: Text, i: int)
    requires
        0 <= i,
    ensures
        match sqy::argument_index(args, name, i) {
            Some(k) => i <= k < args.len() && st::lower(sqy::argument_name(args[k])) == st::lower(
                name,
            ) && forall|j: int|
                i <= j < k ==> st::lower(sqy::argument_name(#[trigger] args[j])) != st::lower(name),
            None => forall|j: int|
                i <= j < args.len() ==> st::lower(sqy::argument_name(#[trigger] args[j]))
                    != st::lower(name),
        },
    decreases args.len() - i,
{
    if i < args.len() && st::lower(sqy::argument_name(args[i])) != st::lower(name) {
        lemma_argument(args, name, i + 1);
    }
}

/// The argument that is being written is the one that its keyword names, where the
/// callee has it, and otherwise the one whose turn it is.
pub proof fn law_active_argument(c: Callee, call: su::CallContext)
    requires
        c.args.len() <= usize::MAX,
    ensures
        call.active_argument_name is None ==> sqy::active_parameter(c, call)
            == call.active_parameter,
        call.active_argument_name matches Some(name) ==> (match sqy::argument_index(
            c.args,
            name,
            0,
        ) {
            Some(k) => sqy::active_parameter(c, call) == k && st::lower(
                sqy::argument_name(c.args[k]),
            ) == st::lower(name),
            None => sqy::active_parameter(c, call) == call.active_parameter && forall|j: int|
                0 <= j < c.args.len() ==> st::lower(sqy::argument_name(#[trigger] c.args[j]))
                    != st::lower(name),
        }),
{
    if let Some(name) = call.active_argument_name {
        lemma_argument(c.args, name, 0);
    }
}

/// Whether a callee can be the one that is called: it takes as many arguments as
/// there are, and it has the keyword.
pub open spec fn can_take(c: Callee, count: usize, keyword: Option<Text>) -> bool {
    &&& c.args.len() >= count
    &&& keyword matches Some(name) ==> exists|k: int|
        0 <= k < c.args.len() && st::lower(sqy::argument_name(#[trigger] c.args[k])) == st::lower(
            name,
        )
}

proof fn lemma_takes(c: Callee, count: usize, keyword: Option<Text>)
    ensures
        sqy::takes(c, count, keyword) == can_take(c, count, keyword),
{
    if let Some(name) = keyword {
        lemma_argument(c.args, name, 0);
    }
}

proof fn lemma_fitting(list: Seq<Callee>, count: usize, keyword: Option<Text>, i: int)
    requires
        0 <= i,
    ensures
        match sqy::fitting_from(list, count, keyword, i) {
            Some(c) => exists|k: int|
                i <= k < list.len() && #[trigger] list[k] == c && can_take(c, count, keyword)
                    && forall|j: int| i <= j < k ==> !can_take(#[trigger] list[j], count, keyword),
            None => forall|j: int|
                i <= j < list.len() ==> !can_take(#[trigger] list[j], count, keyword),
        },
    decreases list.len() - i,
{
    if i < list.len() {
        lemma_takes(list[i], count, keyword);
        if !can_take(list[i], count, keyword) {
            lemma_fitting(list, count, keyword, i + 1);
            if let Some(c) = sqy::fitting_from(list, count, keyword, i + 1) {
                let k = choose|k: int|
                    i + 1 <= k < list.len() && #[trigger] list[k] == c && can_take(
                        c,
                        count,
                        keyword,
                    ) && forall|j: int|
                        i + 1 <= j < k ==> !can_take(#[trigger] list[j], count, keyword);
                assert(i <= k < list.len() && list[k] == c);
            }
        } else {
            assert(list[i] == sqy::fitting_from(list, count, keyword, i)->0);
        }
    }
}

/// While a call is being written, the first of the procedures that it can go to
/// and that takes what was written so far is shown, with all its arguments; nothing
/// is shown where none does.
pub proof fn law_signature_help(
    ws: Workspace,
    path: Text,
    pos: Position,
    source: Text,
    f: int,
    call: su::CallContext,
)
    requires
        sw::find_file(ws, path) == Some(f),
        su::call_context(source, pos) == Some(call),
    ensures
        ({
            let list = sqy::callees(
                ws,
                f,
                sco::scope_at(ws.index.files[f].symbols, pos),
                call.receiver,
                call.name,
            );
            match sqy::signature_help(ws, path, pos, source) {
                Some(help) => exists|k: int|
                    0 <= k < list.len() && help.label == (#[trigger] list[k]).label
                        && help.parameters == list[k].args && help.documentation
                        == list[k].documentation && help.active_parameter == sqy::active_parameter(
                        list[k],
                        call,
                    ) && can_take(list[k], call.argument_count, call.active_argument_name)
                        && forall|j: int|
                        0 <= j < k ==> !can_take(
                            #[trigger] list[j],
                            call.argument_count,
                            call.active_argument_name,
                        ),
                None => forall|j: int|
                    0 <= j < list.len() ==> !can_take(
                        #[trigger] list[j],
                        call.argument_count,
                        call.active_argument_name,
                    ),
            }
        }),
{
    let list = sqy::callees(
        ws,
        f,
        sco::scope_at(ws.index.files[f].symbols, pos),
        call.receiver,
        call.name,
    );
    lemma_fitting(list, call.argument_count, call.active_argument_name, 0);
}

/// A procedure is shown with its name and its arguments; the object of a binding
/// is not among them.
pub proof fn law_callee(ws: Workspace, r: Ref)
    ensures
        sqy::procedure_callee(ws, r).args == sg::symbol(ws, r).args,
        sqy::procedure_callee(ws, r).documentation == sg::symbol(ws, r).documentation,
        st::starts_with(
            sqy::procedure_callee(ws, r).label,
            sg::symbol(ws, r).name + seq!['('] + st::join(sg::symbol(ws, r).args, seq![',', ' '])
                + seq![')'],
        ),
        sqy::method_callee(ws, r) matches Some(c) ==> (sqy::procedure_of(ws, r) matches Some(q) && {
            let all = sg::symbol(ws, q).args;
            &&& c.args == (match sg::passed_index(sg::symbol(ws, r), all) {
                Some(k) => if 0 <= k < all.len() {
                    all.remove(k)
                } else {
                    all
                },
                None => all,
            })
            &&& st::starts_with(
                c.label,
                sg::symbol(ws, r).name + seq!['('] + st::join(c.args, seq![',', ' ']) + seq![')'],
            )
        }),
{
    reveal_strlit("(");
    reveal_strlit(")");
    reveal_strlit(", ");
    assert("("@ =~= seq!['(']);
    assert(")"@ =~= seq![')']);
    assert(", "@ =~= seq![',', ' ']);
    let label = sqy::procedure_callee(ws, r).label;
    assert(label.subrange(0, label.len() as int) =~= label);
    if let Some(c) = sqy::method_callee(ws, r) {
        assert(c.label.subrange(0, c.label.len() as int) =~= c.label);
    }
}

/// Whether an argument of a procedure has to be there: it is declared, and not as
/// optional.
pub open spec fn is_required(ws: Workspace, r: Ref, arg: Text) -> bool {
    sg::local(ws, r, arg) matches Some(k) && !exists|i: int|
        0 <= i < ws.index.files[r.0].symbols[k].attributes.len() && st::lower(
            #[trigger] ws.index.files[r.0].symbols[k].attributes[i],
        ) == "optional"@
}

proof fn lemma_optional(list: Seq<Text>)
    ensures
        st::has_name(list, "optional"@) == exists|i: int|
            0 <= i < list.len() && st::lower(#[trigger] list[i]) == "optional"@,
{
    reveal_strlit("optional");
    assert(st::lower("optional"@) =~= "optional"@);
    if exists|i: int| 0 <= i < list.len() && st::lower(#[trigger] list[i]) == "optional"@ {
        let i = choose|i: int|
            0 <= i < list.len() && st::lower(#[trigger] list[i]) == "optional"@;
        assert(st::same(list[i], "optional"@));
    }
    if st::has_name(list, "optional"@) {
        let i = choose|i: int| 0 <= i < list.len() && st::same(#[trigger] list[i], "optional"@);
        assert(st::lower(list[i]) == "optional"@);
    }
}

proof fn lemma_required(ws: Workspace, r: Ref, args: Seq<Text>, i: int, out: Seq<Text>, arg: Text)
    requires
        0 <= i <= args.len(),
    ensures
        sqy::required_from(ws, r, args, i, out).contains(arg) <==> out.contains(arg)
            || (is_required(
            ws,
            r,
            arg,
        ) && args.skip(i).contains(arg)),
    decreases args.len() - i,
{
    if i < args.len() {
        let here = args.skip(i);
        let rest = args.skip(i + 1);
        if let Some(k) = sg::local(ws, r, args[i]) {
            lemma_optional(ws.index.files[r.0].symbols[k].attributes);
        }
        let next = if is_required(ws, r, args[i]) {
            out.push(args[i])
        } else {
            out
        };
        lemma_required(ws, r, args, i + 1, next, arg);
        if out.contains(arg) {
            let k = choose|k: int| 0 <= k < out.len() && out[k] == arg;
            assert(next[k] == arg);
        }
        if next.contains(arg) && !out.contains(arg) {
            let k = choose|k: int| 0 <= k < next.len() && next[k] == arg;
            if k < out.len() {
                assert(out[k] == arg);
            }
            assert(here[0] == arg);
        }
        if here.contains(arg) {
            let k = choose|k: int| 0 <= k < here.len() && here[k] == arg;
            if k > 0 {
                assert(rest[k - 1] == arg);
            } else if is_required(ws, r, arg) {
                assert(next[out.len() as int] == arg);
            }
        }
        if rest.contains(arg) {
            let k = choose|k: int| 0 <= k < rest.len() && rest[k] == arg;
            assert(here[k + 1] == arg);
        }
    }
}

/// The arguments that cannot be left out are those that are declared and not
/// optional.
pub proof fn law_required(ws: Workspace, r: Ref, arg: Text)
    ensures
        sqy::procedure_callee(ws, r).required.contains(arg) <==> is_required(ws, r, arg)
            && sg::symbol(
            ws,
            r,
        ).args.contains(arg),
{
    let args = sg::symbol(ws, r).args;
    lemma_required(ws, r, args, 0, Seq::empty(), arg);
    assert(args.skip(0) =~= args);
    assert(!Seq::<Text>::empty().contains(arg));
}

// ---------------------------------------------------------------------------
// Literals
// ---------------------------------------------------------------------------

/// Whether a text is made of digits.
pub open spec fn is_digits(t: Text) -> bool {
    t.len() > 0 && forall|i: int| 0 <= i < t.len() ==> '0' <= #[trigger] t[i] <= '9'
}

/// Digits are an integer; digits with a point in them are a real number; the two
/// logical values are logical, and a name is no literal.
pub proof fn law_literal_type(t: Text, a: Text, b: Text)
    requires
        is_digits(t),
        a.len() == 0 || is_digits(a),
        is_digits(b),
    ensures
        sqy::literal_type(t) == Some("INTEGER"@),
        sqy::literal_type(a + seq!['.'] + b) == Some("REAL"@),
        sqy::literal_type(".true."@) == Some("LOGICAL"@),
        sqy::literal_type(".FALSE."@) == Some("LOGICAL"@),
{
    reveal_strlit(".true.");
    reveal_strlit(".false.");
    reveal_strlit(".FALSE.");
    reveal_strlit(".");
    reveal_strlit("e");
    reveal_strlit("d");
    assert(st::lower(".true."@) =~= ".true."@);
    assert(st::lower(".FALSE."@) =~= ".false."@);
    let small = st::lower(t);
    assert(small =~= t);
    assert(small[0] != '.');
    lemma_absent(t, "."@);
    lemma_absent(t, "e"@);
    lemma_absent(t, "d"@);
    let r = a + seq!['.'] + b;
    let k = a.len() as int;
    assert(r[k] == '.');
    assert(r[0] == if a.len() > 0 {
        a[0]
    } else {
        '.'
    });
    assert(r[k + 1] == b[0]);
    let low = st::lower(r);
    assert(low[k] == '.');
    assert(low.subrange(k, k + 1) =~= "."@);
    lemma_present(low, "."@, 0, k);
    assert(low[k + 1] == b[0]);
    if low == ".true."@ || low == ".false."@ {
        assert(low[0] == '.');
        assert(k == 0);
        assert(low[1] == b[0]);
    }
}

proof fn lemma_absent(t: Text, p: Text)
    requires
        is_digits(t),
        p.len() == 1,
        !('0' <= p[0] <= '9'),
    ensures
        !st::contains(t, p),
{
    lemma_absent_from(t, p, 0);
}

proof fn lemma_absent_from(t: Text, p: Text, i: int)
    requires
        is_digits(t),
        p.len() == 1,
        !('0' <= p[0] <= '9'),
        0 <= i,
    ensures
        st::find_from(t, p, i) is None,
    decreases t.len() + 1 - i,
{
    if i + 1 <= t.len() {
        if st::occurs_at(t, p, i) {
            assert(t.subrange(i, i + 1)[0] == p[0]);
        }
        lemma_absent_from(t, p, i + 1);
    }
}

proof fn lemma_present(t: Text, p: Text, i: int, k: int)
    requires
        0 <= i <= k,
        st::occurs_at(t, p, k),
    ensures
        st::find_from(t, p, i) is Some,
    decreases k - i,
{
    if !st::occurs_at(t, p, i) {
        lemma_present(t, p, i + 1, k);
    }
}

// ---------------------------------------------------------------------------
// Actions
// ---------------------------------------------------------------------------

/// An action that adds a `use` statement puts the statement, with the white space
/// of its place, on a line of its own at that place, and changes nothing else.
pub proof fn law_use_action(p: ParsedFile, place: (usize, Text), module: Text, name: Text)
    ensures
        ({
            let a = sac::use_action(p, place, module, name);
            &&& a.edits.len() == 1
            &&& a.edits[0].file == p.path
            &&& a.edits[0].range.start == (Position { line: place.0, character: 0 })
            &&& a.edits[0].range.end == (Position { line: place.0, character: 0 })
            &&& a.edits[0].new_text == place.1 + seq!['u', 's', 'e', ' '] + module + ", only: "@
                + name + seq!['\n']
            &&& shows(a.title, module)
            &&& shows(a.title, name)
        }),
{
    reveal_strlit("use ");
    reveal_strlit("\n");
    assert("use "@ =~= seq!['u', 's', 'e', ' ']);
    assert("\n"@ =~= seq!['\n']);
    let a = sac::use_action(p, place, module, name);
    assert(a.edits[0].new_text =~= place.1 + seq!['u', 's', 'e', ' '] + module + ", only: "@ + name
        + seq!['\n']);
    assert(a.title =~= ("Add `"@ + "use "@) + module + (", only: "@ + name + "`"@));
    lemma_shows("Add `"@ + "use "@, module, ", only: "@ + name + "`"@);
    assert(a.title =~= ("Add `"@ + "use "@ + module + ", only: "@) + name + "`"@);
    lemma_shows("Add `"@ + "use "@ + module + ", only: "@, name, "`"@);
}

/// Whether an action adds a `use` statement for one of the modules of the files
/// from `g` on that have a name for others.
pub open spec fn is_use_action(
    files: Seq<ParsedFile>,
    p: ParsedFile,
    place: (usize, Text),
    name: Text,
    g: int,
    a: CodeAction,
) -> bool {
    exists|h: int, k: int|
        g <= h < files.len() && 0 <= k < files[h].symbols.len() && #[trigger] offers(
            files,
            h,
            k,
            name,
        ) && a == sac::use_action(p, place, files[h].symbols[k].name, name)
}

/// Whether a symbol of a file is a module that has a name for others.
pub open spec fn offers(files: Seq<ParsedFile>, h: int, k: int, name: Text) -> bool {
    files[h].symbols[k].kind is Module && sx::own_export(
        files[h],
        files[h].symbols[k].name,
        name,
    )
}

proof fn lemma_modules_in(
    files: Seq<ParsedFile>,
    g: int,
    p: ParsedFile,
    place: (usize, Text),
    name: Text,
    k: int,
    out: Seq<CodeAction>,
    a: CodeAction,
)
    requires
        0 <= g < files.len(),
        0 <= k,
    ensures
        sac::modules_in(files[g], p, place, name, k, out).contains(a) <==> out.contains(a)
            || exists|
            m: int,
        |
            k <= m < files[g].symbols.len() && #[trigger] offers(files, g, m, name) && a
                == sac::use_action(p, place, files[g].symbols[m].name, name),
    decreases files[g].symbols.len() - k,
{
    let q = files[g];
    if k < q.symbols.len() {
        let hit = offers(files, g, k, name);
        let one = sac::use_action(p, place, q.symbols[k].name, name);
        let next = if hit {
            out.push(one)
        } else {
            out
        };
        lemma_modules_in(files, g, p, place, name, k + 1, next, a);
        if out.contains(a) {
            let m = choose|m: int| 0 <= m < out.len() && out[m] == a;
            assert(next[m] == a);
        }
        if next.contains(a) && !out.contains(a) {
            let m = choose|m: int| 0 <= m < next.len() && next[m] == a;
            if m < out.len() {
                assert(out[m] == a);
            }
            assert(hit && a == one);
            assert(k <= k < q.symbols.len() && offers(files, g, k, name));
        }
        if exists|m: int|
            k <= m < q.symbols.len() && #[trigger] offers(files, g, m, name) && a
                == sac::use_action(p, place, q.symbols[m].name, name) {
            let m = choose|m: int|
                k <= m < q.symbols.len() && #[trigger] offers(files, g, m, name) && a
                    == sac::use_action(p, place, q.symbols[m].name, name);
            if m == k {
                assert(next[out.len() as int] == a);
            } else {
                assert(k + 1 <= m && offers(files, g, m, name));
            }
        }
    }
}

proof fn lemma_modules(
    files: Seq<ParsedFile>,
    p: ParsedFile,
    place: (usize, Text),
    name: Text,
    g: int,
    out: Seq<CodeAction>,
    a: CodeAction,
)
    requires
        0 <= g <= files.len(),
    ensures
        sac::modules_from(files, p, place, name, g, out).contains(a) <==> out.contains(a)
            || is_use_action(files, p, place, name, g, a),
    decreases files.len() - g,
{
    if g < files.len() {
        let next = sac::modules_in(files[g], p, place, name, 0, out);
        lemma_modules_in(files, g, p, place, name, 0, out, a);
        lemma_modules(files, p, place, name, g + 1, next, a);
        if exists|m: int|
            0 <= m < files[g].symbols.len() && #[trigger] offers(files, g, m, name) && a
                == sac::use_action(p, place, files[g].symbols[m].name, name) {
            let m = choose|m: int|
                0 <= m < files[g].symbols.len() && #[trigger] offers(files, g, m, name) && a
                    == sac::use_action(p, place, files[g].symbols[m].name, name);
            assert(g <= g && offers(files, g, m, name));
            assert(is_use_action(files, p, place, name, g, a));
        }
        if is_use_action(files, p, place, name, g, a) {
            let (h, m) = choose|h: int, m: int|
                g <= h < files.len() && 0 <= m < files[h].symbols.len() && #[trigger] offers(
                    files,
                    h,
                    m,
                    name,
                ) && a == sac::use_action(p, place, files[h].symbols[m].name, name);
            if h == g {
                assert(offers(files, g, m, name));
            } else {
                assert(g + 1 <= h && offers(files, h, m, name));
                assert(is_use_action(files, p, place, name, g + 1, a));
            }
        }
        if is_use_action(files, p, place, name, g + 1, a) {
            let (h, m) = choose|h: int, m: int|
                g + 1 <= h < files.len() && 0 <= m < files[h].symbols.len() && #[trigger] offers(
                    files,
                    h,
                    m,
                    name,
                ) && a == sac::use_action(p, place, files[h].symbols[m].name, name);
            assert(g <= h && offers(files, h, m, name));
        }
    }
}

/// For a name that stands for nothing, a `use` statement is offered for each
/// module of the workspace that has the name for others, and for no other.
pub proof fn law_use_actions(
    ws: Workspace,
    path: Text,
    pos: Position,
    source: Text,
    f: int,
    name: Text,
    place: (usize, Text),
    a: CodeAction,
)
    requires
        sw::find_file(ws, path) == Some(f),
        sac::unknown_name(ws, f, source, pos) == Some(name),
        sac::new_use_place(
            ws.index.files[f],
            sco::scope_at(ws.index.files[f].symbols, pos),
        ) == Some(place),
    ensures
        sac::code_actions_at(ws, path, pos, source).contains(a) <==> sac::code_actions(
            ws,
            path,
        ).contains(a) || is_use_action(ws.index.files, ws.index.files[f], place, name, 0, a),
{
    lemma_modules(
        ws.index.files,
        ws.index.files[f],
        place,
        name,
        0,
        sac::code_actions(ws, path),
        a,
    );
}

/// A name that stands for something gets no `use` statement offered.
pub proof fn law_known_name(ws: Workspace, path: Text, pos: Position, source: Text, f: int, r: Ref)
    requires
        sw::find_file(ws, path) == Some(f),
        sqy::target(ws, f, source, pos) == Some(r),
    ensures
        sac::code_actions_at(ws, path, pos, source) == sac::code_actions(ws, path),
{
}

/// The text that binds deferred procedures: one line for each of them, behind
/// `contains` where the type has none yet.
pub proof fn law_binding_text(lines: Seq<Text>, t: Symbol, names: Seq<Text>)
    ensures
        ({
            let text = sac::binding_text(lines, t, names);
            let bound = exists|k: int|
                t.range.start.line <= k < t.range.end.line && k < lines.len() && st::first_ident_is(
                    #[trigger] lines[k],
                    "contains"@,
                );
            &&& !bound ==> text == "contains\n"@ + rows(names, 0)
            &&& bound ==> text == rows(names, 0)
        }),
{
    let none = Seq::<char>::empty();
    lemma_rows(names, 0, none);
    lemma_rows(names, 0, "contains\n"@);
    assert(none + rows(names, 0) =~= rows(names, 0));
}

/// One binding for each of the names from `i` on.
pub open spec fn rows(names: Seq<Text>, i: int) -> Text
    decreases names.len() - i,
{
    if 0 <= i < names.len() {
        "  procedure :: "@ + names[i] + " => "@ + names[i] + "\n"@ + rows(names, i + 1)
    } else {
        Seq::empty()
    }
}

proof fn lemma_rows(names: Seq<Text>, i: int, out: Text)
    requires
        0 <= i <= names.len(),
    ensures
        sac::bindings_from(names, i, out) == out + rows(names, i),
    decreases names.len() - i,
{
    if i < names.len() {
        let row = "  procedure :: "@ + names[i] + " => "@ + names[i] + "\n"@;
        let next = out + "  procedure :: "@ + names[i] + " => "@ + names[i] + "\n"@;
        lemma_rows(names, i + 1, next);
        assert(next =~= out + row);
        assert(next + rows(names, i + 1) =~= out + (row + rows(names, i + 1)));
    } else {
        assert(out + rows(names, i) =~= out);
    }
}

} // verus!
