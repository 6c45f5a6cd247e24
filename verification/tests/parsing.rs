//! Parsing of source files.

use fortran_lsp::{GenericBindingKind, ParsedFile, PreprocessorKind, SymbolKind, Visibility};

#[test]
fn parses_modules_subroutines_functions_and_vars() {
    let src = r#"
module math
  implicit none
  integer, parameter :: rk = 8
contains
  subroutine axpy(a, x, y)
    real, intent(in) :: a
    real, intent(in) :: x
    real, intent(inout) :: y
  end subroutine axpy
end module math
"#;
    let parsed = ParsedFile::parse("math.f90", src);
    let names: Vec<_> = parsed.symbols.iter().map(|s| s.name.as_str()).collect();
    assert!(names.contains(&"math"));
    assert!(names.contains(&"axpy"));
    assert!(names.contains(&"rk"));
    assert!(names.contains(&"a"));
    let axpy = parsed.symbols.iter().find(|s| s.name == "axpy").unwrap();
    assert_eq!(axpy.kind, SymbolKind::Subroutine);
    assert_eq!(axpy.args, vec!["a", "x", "y"]);
    assert_eq!(axpy.scope, vec!["math"]);
}

#[test]
fn parses_type_prefixed_functions() {
    let src = "module linalg\n\
contains\n\
logical function solve2(a, b, x)\n\
real :: a\n\
real :: b\n\
real :: x\n\
solve2 = .true.\n\
end function solve2\n\
end module";
    let parsed = ParsedFile::parse("linalg.f90", src);
    let solve2 = parsed
        .symbols
        .iter()
        .find(|sym| sym.name == "solve2")
        .expect("typed function should be indexed");
    assert_eq!(solve2.kind, SymbolKind::Function);
    assert_eq!(solve2.args, vec!["a", "b", "x"]);
    assert_eq!(solve2.scope, vec!["linalg"]);
    assert!(parsed.diagnostics.is_empty(), "{:?}", parsed.diagnostics);
}

#[test]
fn parses_labeled_blocks_and_select_case_constructs() {
    let src = "subroutine f(n)\n\
main : block\n\
select case (n)\n\
case (1)\n\
n = n + 1\n\
end select\n\
end block main\n\
end subroutine";
    let parsed = ParsedFile::parse("constructs.f90", src);
    assert!(parsed.diagnostics.is_empty(), "{:?}", parsed.diagnostics);
    assert!(parsed
        .symbols
        .iter()
        .any(|sym| sym.kind == SymbolKind::Block));
    assert!(parsed
        .symbols
        .iter()
        .any(|sym| sym.kind == SymbolKind::SelectType));
}

#[test]
fn declaration_array_constructors_do_not_create_duplicate_symbols() {
    let src = "subroutine fcn()\n\
real, parameter :: y(3) = [1.0, 2.0, 3.0]\n\
end subroutine";
    let parsed = ParsedFile::parse("arrays.f90", src);
    let y_symbols: Vec<_> = parsed
        .symbols
        .iter()
        .filter(|sym| sym.name == "y")
        .collect();
    assert_eq!(y_symbols.len(), 1);
    assert!(parsed.diagnostics.is_empty(), "{:?}", parsed.diagnostics);
}

#[test]
fn legacy_declarations_without_double_colon_are_indexed() {
    let src = "program p\n\
integer, parameter :: rk = kind(1.0d0)\n\
complex(rk) f_hat(0:8)\n\
end program";
    let parsed = ParsedFile::parse("legacy.f90", src);
    assert!(parsed
        .symbols
        .iter()
        .any(|sym| { sym.name == "f_hat" && sym.type_spec.as_deref() == Some("complex(rk)") }));
}

#[test]
fn procedure_declarations_outside_types_are_not_type_bound_methods() {
    let src = "module fit\n\
abstract interface\n\
function expr_f(x) result(y)\n\
real, intent(in) :: x\n\
real :: y\n\
end function\n\
end interface\n\
contains\n\
subroutine find_fit(expr)\n\
procedure(expr_f) :: expr\n\
end subroutine\n\
end module";
    let parsed = ParsedFile::parse("fit.f90", src);
    let expr = parsed
        .symbols
        .iter()
        .find(|sym| sym.name == "expr")
        .expect("procedure dummy should be indexed");
    assert_eq!(expr.kind, SymbolKind::Variable);
    assert!(parsed.diagnostics.is_empty(), "{:?}", parsed.diagnostics);
}

#[test]
fn reports_duplicate_symbols_in_scope() {
    let parsed = ParsedFile::parse(
        "dup.f90",
        "subroutine s()\ninteger :: x\nreal :: x\nend subroutine",
    );
    assert_eq!(parsed.diagnostics.len(), 1);
    assert!(parsed.diagnostics[0].message.contains("already defined"));
}

#[test]
fn allows_repeated_anonymous_interface_blocks() {
    let parsed = ParsedFile::parse(
        "interfaces.f90",
        "module m\n\
interface\n\
module procedure first\n\
end interface\n\
interface\n\
module procedure second\n\
end interface\n\
contains\n\
subroutine first()\n\
end subroutine\n\
subroutine second()\n\
end subroutine\n\
end module",
    );
    assert!(parsed
        .diagnostics
        .iter()
        .all(|diagnostic| !diagnostic.message.contains("already defined")));
}

#[test]
fn allows_generic_constructor_interface_named_like_type() {
    let parsed = ParsedFile::parse(
        "constructor.f90",
        "module m\n\
type vector\n\
integer :: x\n\
end type\n\
interface vector\n\
module procedure new_vector\n\
end interface\n\
contains\n\
function new_vector(x) result(value)\n\
integer :: x\n\
type(vector) :: value\n\
end function\n\
end module",
    );
    assert!(parsed
        .diagnostics
        .iter()
        .all(|diagnostic| !diagnostic.message.contains("already defined")));
}

#[test]
fn allows_generic_interface_link_named_like_implementation() {
    let parsed = ParsedFile::parse(
        "same_name_generic.f90",
        "module strings\n\
interface f_string\n\
module procedure f_string, f_string_cptr\n\
end interface\n\
contains\n\
function f_string(c_string)\n\
character(len=1), intent(in) :: c_string(*)\n\
character(:), allocatable :: f_string\n\
end function\n\
function f_string_cptr(cptr) result(s)\n\
integer, intent(in) :: cptr\n\
character(:), allocatable :: s\n\
end function\n\
end module",
    );
    assert!(
        parsed
            .diagnostics
            .iter()
            .all(|diagnostic| !diagnostic.message.contains("already defined")),
        "{:?}",
        parsed.diagnostics
    );
}

#[test]
fn reports_variables_that_mask_parent_scope_variables() {
    let parsed = ParsedFile::parse(
        "mask.f90",
        "module m\n\
integer :: value\n\
contains\n\
subroutine work()\n\
integer :: value\n\
integer :: block_value\n\
block\n\
integer :: block_value\n\
end block\n\
end subroutine\n\
end module",
    );
    let masking: Vec<_> = parsed
        .diagnostics
        .iter()
        .filter(|diag| diag.message.contains("masks variable in parent scope"))
        .collect();
    assert_eq!(masking.len(), 2);
    assert!(masking
        .iter()
        .all(|diag| diag.severity == fortran_lsp::DiagnosticSeverity::Warning));
}

#[test]
fn reports_locals_that_mask_module_callables_and_interfaces() {
    let parsed = ParsedFile::parse(
        "mask_callable.f90",
        "module strings\n\
interface str\n\
module procedure str_int\n\
end interface\n\
contains\n\
function lower(text) result(out)\n\
character(len=*), intent(in) :: text\n\
character(len=:), allocatable :: out\n\
end function\n\
function is_name(line) result(ok)\n\
character(len=*), parameter :: lower = 'abcdefghijklmnopqrstuvwxyz'\n\
character(len=*), intent(in) :: line\n\
logical :: ok\n\
end function\n\
function str_int(i) result(s)\n\
integer, intent(in) :: i\n\
character(len=8) :: s\n\
end function\n\
function join(str) result(out)\n\
character(len=*), intent(in) :: str(:)\n\
character(len=:), allocatable :: out\n\
end function\n\
end module",
    );
    let masking: Vec<_> = parsed
        .diagnostics
        .iter()
        .filter(|diag| diag.message.contains("masks variable in parent scope"))
        .collect();
    assert_eq!(masking.len(), 2, "{:?}", parsed.diagnostics);
    for name in ["lower", "str"] {
        assert!(
            masking
                .iter()
                .any(|diag| diag.message.contains(&format!("\"{name}\""))),
            "{:?}",
            parsed.diagnostics
        );
    }
}

#[test]
fn reports_dummies_that_mask_case_insensitive_module_functions() {
    let parsed = ParsedFile::parse(
        "mask_case.f90",
        "module env\n\
contains\n\
function OS_NAME(os)\n\
integer, intent(in) :: os\n\
character(len=:), allocatable :: OS_NAME\n\
end function\n\
function match_os_type(os_name) result(os_type)\n\
character(len=*), intent(in) :: os_name\n\
integer :: os_type\n\
end function\n\
end module",
    );
    let masking: Vec<_> = parsed
        .diagnostics
        .iter()
        .filter(|diag| diag.message.contains("masks variable in parent scope"))
        .collect();
    assert!(
        masking
            .iter()
            .any(|diag| diag.message.contains("\"os_name\"")),
        "{:?}",
        parsed.diagnostics
    );
}

#[test]
fn function_implicit_results_do_not_mask_their_own_module_procedure() {
    let parsed = ParsedFile::parse(
        "own_result.f90",
        "module filesystem\n\
contains\n\
function glob(pattern)\n\
character(len=*), intent(in) :: pattern\n\
logical :: glob\n\
end function\n\
function caller(glob)\n\
logical, intent(in) :: glob\n\
logical :: caller\n\
end function\n\
end module",
    );
    let masking: Vec<_> = parsed
        .diagnostics
        .iter()
        .filter(|diag| diag.message.contains("masks variable in parent scope"))
        .collect();
    assert_eq!(masking.len(), 1, "{:?}", parsed.diagnostics);
    assert!(masking[0].message.contains("\"glob\""));
}

#[test]
fn reports_procedure_names_that_mask_type_members() {
    let parsed = ParsedFile::parse(
        "mask_function.f90",
        "module m\n\
type :: logger\n\
logical :: time_stamp\n\
end type\n\
contains\n\
function time_stamp()\n\
character(23) :: time_stamp\n\
end function\n\
end module",
    );
    let masking: Vec<_> = parsed
        .diagnostics
        .iter()
        .filter(|diag| diag.message.contains("masks variable in parent scope"))
        .collect();
    assert_eq!(masking.len(), 2, "{:?}", parsed.diagnostics);
}

#[test]
fn reports_procedure_locals_that_mask_type_bound_methods() {
    let parsed = ParsedFile::parse(
        "mask_method.f90",
        "module m\n\
type, abstract :: hashmap\n\
contains\n\
procedure(depth_iface), deferred :: total_depth\n\
procedure :: slots_bits\n\
end type\n\
abstract interface\n\
function depth_iface(map) result(total_depth)\n\
import hashmap\n\
class(hashmap), intent(in) :: map\n\
integer :: total_depth\n\
end function\n\
end interface\n\
interface\n\
module function total_open_depth(map) result(total_depth)\n\
class(hashmap), intent(in) :: map\n\
integer :: total_depth\n\
end function\n\
end interface\n\
contains\n\
subroutine init(slots_bits)\n\
integer, intent(in) :: slots_bits\n\
end subroutine\n\
function total_impl(map) result(total_depth)\n\
class(hashmap), intent(in) :: map\n\
integer :: total_depth\n\
end function\n\
function slots_bits(map)\n\
class(hashmap), intent(in) :: map\n\
integer :: slots_bits\n\
end function\n\
end module",
    );
    let masking: Vec<_> = parsed
        .diagnostics
        .iter()
        .filter(|diag| diag.message.contains("masks variable in parent scope"))
        .collect();
    assert_eq!(masking.len(), 3, "{:?}", parsed.diagnostics);
    assert!(masking
        .iter()
        .all(|diag| diag.severity == fortran_lsp::DiagnosticSeverity::Warning));
}

#[test]
fn abstract_interface_dummy_args_do_not_mask_type_bound_methods() {
    let parsed = ParsedFile::parse(
        "abstract_interface_dummy_mask.f90",
        "module m\n\
type :: process_type\n\
contains\n\
procedure :: pid => process_get_id\n\
procedure :: slots_bits\n\
end type\n\
abstract interface\n\
subroutine process_callback(pid, slots_bits)\n\
integer, intent(in) :: pid\n\
integer, intent(in) :: slots_bits\n\
end subroutine\n\
end interface\n\
contains\n\
integer function process_get_id(process)\n\
type(process_type), intent(in) :: process\n\
process_get_id = 0\n\
end function\n\
integer function slots_bits(process)\n\
type(process_type), intent(in) :: process\n\
slots_bits = 0\n\
end function\n\
end module",
    );
    let masking: Vec<_> = parsed
        .diagnostics
        .iter()
        .filter(|diag| diag.message.contains("masks variable in parent scope"))
        .collect();
    assert_eq!(masking.len(), 1, "{:?}", parsed.diagnostics);
    assert!(
        masking
            .iter()
            .any(|diag| diag.message.contains("slots_bits")),
        "{:?}",
        parsed.diagnostics
    );
}

#[test]
fn aliased_type_bound_result_names_do_not_mask_binding_names() {
    let parsed = ParsedFile::parse(
        "aliased_result_mask.f90",
        "module m\n\
type :: platform_config_t\n\
contains\n\
procedure :: compiler_name => platform_compiler_name\n\
procedure :: os_name => platform_os_name\n\
procedure :: name => platform_config_name\n\
end type\n\
contains\n\
function platform_compiler_name(self) result(name)\n\
class(platform_config_t), intent(in) :: self\n\
character(len=:), allocatable :: name\n\
end function\n\
function platform_os_name(self) result(name)\n\
class(platform_config_t), intent(in) :: self\n\
character(len=:), allocatable :: name\n\
end function\n\
function platform_config_name(self) result(name)\n\
class(platform_config_t), intent(in) :: self\n\
character(len=:), allocatable :: name\n\
end function\n\
function compiler_id_name(id) result(name)\n\
integer, intent(in) :: id\n\
character(len=:), allocatable :: name\n\
end function\n\
end module",
    );
    assert!(
        parsed
            .diagnostics
            .iter()
            .all(|diag| !diag.message.contains("masks variable in parent scope")),
        "{:?}",
        parsed.diagnostics
    );
}

#[test]
fn constructor_interface_procedures_do_not_mask_type_members() {
    let parsed = ParsedFile::parse(
        "constructor_interface_mask.f90",
        "module m\n\
type :: build_progress_t\n\
integer :: n_target\n\
end type\n\
interface build_progress_t\n\
procedure :: new_build_progress\n\
end interface\n\
contains\n\
function new_build_progress() result(progress)\n\
type(build_progress_t) :: progress\n\
end function\n\
end module",
    );
    assert!(
        parsed
            .diagnostics
            .iter()
            .all(|diag| !diag.message.eq_ignore_ascii_case(
                "variable \"new_build_progress\" masks variable in parent scope"
            )),
        "{:?}",
        parsed.diagnostics
    );
}

#[test]
fn constructor_interface_dummies_do_not_mask_same_named_type_members() {
    let parsed = ParsedFile::parse(
        "constructor_dummy_mask.f90",
        "module layers\n\
type :: conv1d_layer\n\
integer :: filters\n\
integer :: stride\n\
end type\n\
interface conv1d_layer\n\
module function conv1d_layer_cons(filters, stride) result(res)\n\
integer, intent(in) :: filters\n\
integer, intent(in) :: stride\n\
type(conv1d_layer) :: res\n\
end function\n\
end interface\n\
end module",
    );
    assert!(
        parsed
            .diagnostics
            .iter()
            .all(|diag| !diag.message.contains("masks variable in parent scope")),
        "{:?}",
        parsed.diagnostics
    );
}

#[test]
fn dummies_do_not_mask_aliased_type_bound_binding_names() {
    let parsed = ParsedFile::parse(
        "aliased_binding_dummy_mask.f90",
        "module m\n\
type :: compiler_t\n\
contains\n\
procedure :: name => compiler_name\n\
end type\n\
contains\n\
subroutine write_response_file(name, argv)\n\
character(len=*), intent(in) :: name\n\
character(len=*), intent(in) :: argv\n\
end subroutine\n\
function compiler_name(self) result(name)\n\
class(compiler_t), intent(in) :: self\n\
character(len=:), allocatable :: name\n\
end function\n\
end module",
    );
    assert!(
        parsed.diagnostics.iter().all(|diag| !diag
            .message
            .eq_ignore_ascii_case("variable \"name\" masks variable in parent scope")),
        "{:?}",
        parsed.diagnostics
    );
}

#[test]
fn locals_mask_parent_use_only_names_case_insensitively() {
    let parsed = ParsedFile::parse(
        "feature.f90",
        "module feature\n\
use env, only: OS_NAME\n\
contains\n\
subroutine new_feature()\n\
character(len=:), allocatable :: os_name\n\
end subroutine\n\
end module",
    );

    assert!(
        parsed
            .diagnostics
            .iter()
            .any(|diag| diag.message == "Variable \"os_name\" masks variable in parent scope"),
        "{:?}",
        parsed.diagnostics
    );
}

#[test]
fn type_members_do_not_report_parent_masking() {
    let parsed = ParsedFile::parse(
        "type_member.f90",
        "module m\ninteger :: value\ntype :: t\ninteger :: value\nend type\nend module",
    );
    assert!(!parsed
        .diagnostics
        .iter()
        .any(|diag| diag.message.contains("masks variable in parent scope")));
}

#[test]
fn reports_use_statements_after_implicit_statement() {
    let parsed = ParsedFile::parse(
        "order.f90",
        "module m\nimplicit none\nuse iso_fortran_env, only: int32\nend module",
    );
    let diagnostic = parsed
        .diagnostics
        .iter()
        .find(|diag| {
            diag.message
                .contains("USE statements after IMPLICIT statement")
        })
        .expect("expected use-after-implicit diagnostic");
    assert_eq!(diagnostic.range.start.line, 1);

    let valid = ParsedFile::parse(
        "valid.f90",
        "module m\nuse iso_fortran_env, only: int32\nimplicit none\nend module",
    );
    assert!(!valid.diagnostics.iter().any(|diag| {
        diag.message
            .contains("USE statements after IMPLICIT statement")
    }));
}

#[test]
fn reports_use_after_implicit_in_unterminated_scopes() {
    let parsed = ParsedFile::parse(
        "partial.f90",
        "module m\nimplicit none\nuse iso_fortran_env, only: int32",
    );
    assert!(parsed.diagnostics.iter().any(|diag| {
        diag.message
            .contains("USE statements after IMPLICIT statement")
    }));
    assert!(parsed
        .diagnostics
        .iter()
        .any(|diag| diag.message.contains("unterminated module scope")));
}

#[test]
fn reports_contains_statement_errors() {
    let duplicate = ParsedFile::parse(
        "dup_contains.f90",
        "module m\ncontains\ncontains\nsubroutine s()\nend subroutine\nend module",
    );
    assert!(duplicate
        .diagnostics
        .iter()
        .any(|diag| diag.message.contains("Multiple CONTAINS statements")));

    let orphan = ParsedFile::parse("orphan_contains.f90", "contains");
    assert!(orphan
        .diagnostics
        .iter()
        .any(|diag| diag.message.contains("without enclosing scope")));

    let missing = ParsedFile::parse(
        "missing_contains.f90",
        "module m\nsubroutine s()\nend subroutine\nend module",
    );
    assert!(missing.diagnostics.iter().any(|diag| {
        diag.message
            .contains("Subroutine/Function definition before CONTAINS statement")
    }));

    let valid = ParsedFile::parse(
        "valid_contains.f90",
        "module m\ncontains\nsubroutine s()\nend subroutine\nend module",
    );
    assert!(!valid.diagnostics.iter().any(|diag| {
        diag.message
            .contains("Subroutine/Function definition before CONTAINS statement")
    }));
}

#[test]
fn reports_implicit_without_enclosing_scope() {
    let parsed = ParsedFile::parse("implicit_top.f90", "implicit none");
    assert!(parsed.diagnostics.iter().any(|diag| {
        diag.message
            .contains("IMPLICIT statement without enclosing scope")
    }));

    let valid = ParsedFile::parse(
        "implicit_program.f90",
        "program app\nimplicit none\nend program",
    );
    assert!(!valid.diagnostics.iter().any(|diag| {
        diag.message
            .contains("IMPLICIT statement without enclosing scope")
    }));
}

#[test]
fn reports_import_statements_outside_interfaces() {
    let parsed = ParsedFile::parse("bad_import.f90", "module m\nimport, only: rk\nend module");
    assert!(parsed.diagnostics.iter().any(|diag| diag
        .message
        .contains("IMPORT statement outside of interface")));

    let valid = ParsedFile::parse(
        "valid_import.f90",
        "module m\ninteger :: rk\ninterface\nimport, only: rk\nend interface\nend module",
    );
    assert!(!valid.diagnostics.iter().any(|diag| diag
        .message
        .contains("IMPORT statement outside of interface")));
}

#[test]
fn reports_argument_declaration_diagnostics() {
    let parsed = ParsedFile::parse(
        "args.f90",
        "module m\n\
implicit none\n\
contains\n\
subroutine missing_decl(a, b)\n\
integer, intent(in) :: a\n\
end subroutine\n\
subroutine stray_intent(a)\n\
integer, intent(in) :: a\n\
integer, intent(out) :: not_an_arg\n\
end subroutine\n\
end module",
    );
    assert!(parsed.diagnostics.iter().any(|diag| {
        diag.message
            .contains("No matching declaration found for argument \"b\"")
    }));
    assert!(parsed.diagnostics.iter().any(|diag| {
        diag.message
            .contains("Variable \"not_an_arg\" with INTENT keyword not found in argument list")
    }));
}

#[test]
fn implicit_typing_allows_undeclared_arguments() {
    let parsed = ParsedFile::parse("implicit_args.f90", "subroutine allowed(a)\nend subroutine");
    assert!(!parsed.diagnostics.iter().any(|diag| {
        diag.message
            .contains("No matching declaration found for argument")
    }));
}

#[test]
fn handles_free_form_continuations() {
    let parsed = ParsedFile::parse(
        "cont.f90",
        "subroutine long(&\n  a, b)\ninteger :: a\nend subroutine",
    );
    let sub = parsed.symbols.iter().find(|s| s.name == "long").unwrap();
    assert_eq!(sub.args, vec!["a", "b"]);
}

#[test]
fn free_form_continuations_skip_comment_only_lines() {
    let parsed = ParsedFile::parse(
        "params.f90",
        "module m\n\
integer, parameter, public :: &\n\
! first value\n\
os_unknown = 0, &\n\
! second value\n\
os_linux = 1\n\
end module",
    );

    let names: Vec<_> = parsed
        .symbols
        .iter()
        .filter(|sym| sym.kind == SymbolKind::Variable)
        .map(|sym| sym.name.as_str())
        .collect();
    assert!(names.contains(&"os_unknown"));
    assert!(names.contains(&"os_linux"));
}

#[test]
fn continued_procedure_headers_keep_dummy_declarations_after_doc_comments() {
    let parsed = ParsedFile::parse(
        "logger.f90",
        "module m\n\
implicit none\n\
type logger_type\n\
end type\n\
contains\n\
pure subroutine configuration(self, add_blank_line, &\n\
    time_stamp)\n\
!! version: experimental\n\
!! Reports the logging configuration of self.\n\
!! call logger % configuration( &\n\
!!     time_stamp=time_stamp )\n\
class(logger_type), intent(in) :: self\n\
logical, intent(out), optional :: add_blank_line\n\
logical, intent(out), optional :: time_stamp\n\
end subroutine\n\
end module",
    );

    assert!(parsed
        .diagnostics
        .iter()
        .all(|diagnostic| !diagnostic.message.contains("self")));
}

#[test]
fn property_checks_free_form_continuation_and_comment_mixes() {
    let mut seed = 0x5eed_f0u32;
    let mut source = String::new();
    let mut expected = Vec::new();

    for idx in 0..96 {
        let name = format!("free_{idx}");
        expected.push(name.clone());
        if next_u32(&mut seed) % 3 == 0 {
            source.push_str("! generated comment before subroutine\n");
        }
        match next_u32(&mut seed) % 4 {
            0 => source.push_str(&format!("subroutine {name}(a, b)\n")),
            1 => source.push_str(&format!("subroutine {name}(&\n  &a, b)\n")),
            2 => source.push_str(&format!("subroutine {name}(a, &\n  b)\n")),
            _ => source.push_str(&format!("subroutine {name}( &\n  &a, &\n  &b)\n")),
        }
        if next_u32(&mut seed) % 2 == 0 {
            source.push_str("! generated comment inside body\n");
        }
        source.push_str("integer :: a\n");
        source.push_str("end subroutine\n");
    }

    let parsed = ParsedFile::parse("generated.f90", &source);
    for name in expected {
        let sub = parsed
            .symbols
            .iter()
            .find(|sym| sym.name == name)
            .unwrap_or_else(|| panic!("missing generated subroutine {name}"));
        assert_eq!(sub.args, vec!["a", "b"]);
    }
}

#[test]
fn builds_hierarchical_document_symbols() {
    let parsed = ParsedFile::parse(
        "math.f90",
        "module math\ncontains\nsubroutine axpy()\ninteger :: i\nend subroutine\nend module",
    );
    let docs = parsed.document_symbols();
    assert_eq!(docs.len(), 1);
    assert_eq!(docs[0].name, "math");
    assert_eq!(docs[0].children[0].name, "axpy");
    assert_eq!(docs[0].children[0].children[0].name, "i");
}

#[test]
fn document_symbols_include_nested_submodule_parent() {
    let parsed = ParsedFile::parse(
        "grandchild.f90",
        "submodule(parent:child1) grandchild\n\
contains\n\
module procedure my_fun\n\
end procedure\n\
end submodule",
    );
    let docs = parsed.document_symbols();
    assert_eq!(docs.len(), 1);
    assert_eq!(docs[0].name, "child1");
    assert_eq!(docs[0].children[0].name, "grandchild");
    assert!(docs[0].children[0]
        .children
        .iter()
        .any(|symbol| symbol.name == "my_fun"));
}

#[test]
fn document_symbols_include_type_bound_generic_bindings() {
    let parsed = ParsedFile::parse(
        "types.f90",
        "module m\n\
type list\n\
contains\n\
procedure :: get_item\n\
generic, public :: get => get_item\n\
end type\n\
end module",
    );
    let docs = parsed.document_symbols();
    let ty = docs[0]
        .children
        .iter()
        .find(|symbol| symbol.name == "list")
        .unwrap();
    assert!(ty.children.iter().any(|symbol| {
        symbol.name == "get"
            && symbol
                .detail
                .as_deref()
                .is_some_and(|detail| detail.contains("get_item"))
    }));
}

#[test]
fn parses_operator_and_assignment_interface_symbols() {
    let parsed = ParsedFile::parse(
        "ops.f90",
        "module ops\n\
interface operator(+)\n\
module procedure add_vec\n\
end interface\n\
interface assignment(=)\n\
module procedure assign_vec\n\
end interface\n\
end module",
    );
    let operator = parsed
        .symbols
        .iter()
        .find(|sym| sym.name == "operator(+)")
        .unwrap();
    assert_eq!(operator.kind, SymbolKind::Interface);
    let assignment = parsed
        .symbols
        .iter()
        .find(|sym| sym.name == "assignment(=)")
        .unwrap();
    assert_eq!(assignment.kind, SymbolKind::Interface);

    let docs = parsed.document_symbols();
    assert_eq!(docs[0].children[0].name, "operator(+)");
    assert_eq!(docs[0].children[1].name, "assignment(=)");
}

#[test]
fn attaches_doc_comments_to_next_scope() {
    let parsed = ParsedFile::parse(
            "math.f90",
            "module math\n!! Scale and add vectors.\npure subroutine axpy(a, x, y)\nend subroutine\nend module",
        );
    let axpy = parsed.symbols.iter().find(|s| s.name == "axpy").unwrap();
    assert_eq!(
        axpy.documentation.as_deref(),
        Some("Scale and add vectors.")
    );
    assert_eq!(axpy.kind, SymbolKind::Subroutine);
}

#[test]
fn records_declaration_attributes_and_result_names() {
    let parsed = ParsedFile::parse(
            "decl.f90",
            "module m\ninteger, parameter, public :: rk = 8\ntype(vector), pointer, private :: current\ncontains\nfunction norm(x) result(value)\nreal :: value\nend function\nend module",
        );
    let rk = parsed.symbols.iter().find(|s| s.name == "rk").unwrap();
    assert_eq!(rk.visibility, Visibility::Public);
    assert_eq!(rk.type_spec.as_deref(), Some("integer"));
    assert!(rk.is_parameter);
    let current = parsed.symbols.iter().find(|s| s.name == "current").unwrap();
    assert_eq!(current.visibility, Visibility::Private);
    assert_eq!(current.type_spec.as_deref(), Some("type(vector)"));
    assert!(current.attributes.iter().any(|attr| attr == "pointer"));
    let norm = parsed.symbols.iter().find(|s| s.name == "norm").unwrap();
    assert_eq!(norm.result.as_deref(), Some("value"));
}

#[test]
fn handles_fixed_form_continuations() {
    let parsed = ParsedFile::parse(
        "legacy.f",
        "      subroutine saxpy(a,\n     & x, y)\n      real :: a\n      end\n",
    );
    let sub = parsed.symbols.iter().find(|s| s.name == "saxpy").unwrap();
    assert_eq!(sub.args, vec!["a", "x", "y"]);
    assert_eq!(sub.range.start.line, 0);
}

#[test]
fn property_checks_fixed_form_continuation_and_comment_mixes() {
    let mut seed = 0x51a7_f077u32;
    let mut source = String::new();
    let mut expected = Vec::new();

    for idx in 0..96 {
        let name = format!("fx{idx}");
        expected.push(name.clone());
        if next_u32(&mut seed) % 3 == 0 {
            source.push_str("C generated fixed-form comment\n");
        }
        match next_u32(&mut seed) % 3 {
            0 => source.push_str(&format!("      subroutine {name}(a, b)\n")),
            1 => source.push_str(&format!("      subroutine {name}(a,\n     & b)\n")),
            _ => source.push_str(&format!("      subroutine {name}(\n     & a, b)\n")),
        }
        if next_u32(&mut seed) % 2 == 0 {
            source.push_str("* generated fixed-form body comment\n");
        }
        source.push_str("      integer :: a\n");
        source.push_str("      end\n");
    }

    let parsed = ParsedFile::parse("generated.f", &source);
    for name in expected {
        let sub = parsed
            .symbols
            .iter()
            .find(|sym| sym.name == name)
            .unwrap_or_else(|| panic!("missing generated subroutine {name}"));
        assert_eq!(sub.args, vec!["a", "b"]);
    }
}

#[test]
fn records_include_statements() {
    let parsed = ParsedFile::parse(
        "inc.f90",
        "module m\ninclude 'params.inc'\n#include \"defs.inc\"\nend module",
    );
    let paths: Vec<_> = parsed
        .includes
        .iter()
        .map(|stmt| stmt.path.as_str())
        .collect();
    assert_eq!(paths, vec!["params.inc", "defs.inc"]);
    assert_eq!(parsed.includes[0].scope, vec!["m"]);
}

#[test]
fn records_interface_import_statements() {
    let parsed = ParsedFile::parse(
        "iface.f90",
        "module m\ninteger :: rk\ninterface\nimport, only: rk\nsubroutine s(x)\nreal :: x\nend subroutine\nend interface\nend module",
    );
    assert_eq!(parsed.imports.len(), 1);
    assert_eq!(parsed.imports[0].kind, fortran_lsp::ImportKind::Only);
    assert_eq!(parsed.imports[0].names, vec!["rk"]);
    assert_eq!(parsed.imports[0].scope, vec!["m", "interface"]);
}

#[test]
fn doubleprecision_declarations_satisfy_dummy_arguments() {
    let parsed = ParsedFile::parse(
        "doubleprecision.f90",
        "subroutine convert(chars, valu)\n\
implicit none\n\
character(len=*), intent(in) :: chars\n\
doubleprecision, intent(out) :: valu\n\
end subroutine",
    );
    assert!(parsed.diagnostics.is_empty(), "{:?}", parsed.diagnostics);
}

#[test]
fn records_type_inheritance_and_type_bound_procedures() {
    let parsed = ParsedFile::parse(
        "types.f90",
        "module m\ntype, abstract :: base\ncontains\nprocedure(draw_iface), deferred, pass(self) :: draw\nend type\ntype, extends(base) :: circle\ncontains\nprocedure :: draw => draw_circle\ngeneric, public :: render => draw\nend type\nend module",
    );
    let base = parsed.symbols.iter().find(|s| s.name == "base").unwrap();
    assert!(base.is_abstract);
    let circle = parsed.symbols.iter().find(|s| s.name == "circle").unwrap();
    assert_eq!(circle.extends.as_deref(), Some("base"));
    let draw = parsed
        .symbols
        .iter()
        .find(|s| s.name == "draw" && s.scope.ends_with(&["circle".to_string()]))
        .unwrap();
    assert_eq!(draw.kind, SymbolKind::Method);
    assert_eq!(draw.binding_target.as_deref(), Some("draw_circle"));
    let deferred = parsed
        .symbols
        .iter()
        .find(|s| s.name == "draw" && s.scope.ends_with(&["base".to_string()]))
        .unwrap();
    assert!(deferred.is_deferred);
    assert_eq!(deferred.pass_arg.as_deref(), Some("self"));
    assert_eq!(parsed.generic_bindings.len(), 1);
    assert_eq!(parsed.generic_bindings[0].name, "render");
    assert_eq!(parsed.generic_bindings[0].procedures, vec!["draw"]);
}

#[test]
fn records_legacy_derived_type_definition_without_double_colon() {
    let parsed = ParsedFile::parse(
        "types.f90",
        "module m\n\
type entry_ptr\n\
type(entry), pointer :: target => null()\n\
end type entry_ptr\n\
type other_ptr\n\
type(entry), pointer :: target => null()\n\
end type other_ptr\n\
end module",
    );

    let entry_ptr = parsed
        .symbols
        .iter()
        .find(|s| s.name == "entry_ptr")
        .unwrap();
    assert_eq!(entry_ptr.kind, SymbolKind::Type);
    let target_scopes: Vec<_> = parsed
        .symbols
        .iter()
        .filter(|s| s.name == "target")
        .map(|s| s.scope.clone())
        .collect();
    assert_eq!(
        target_scopes,
        vec![
            vec!["m".to_string(), "entry_ptr".to_string()],
            vec!["m".to_string(), "other_ptr".to_string()]
        ]
    );
    assert!(parsed
        .diagnostics
        .iter()
        .all(|diagnostic| !diagnostic.message.contains("already defined")));
}

#[test]
fn procedure_pointer_components_are_not_type_bound_methods() {
    let parsed = ParsedFile::parse(
        "types.f90",
        "module m\n\
abstract interface\n\
subroutine callback()\n\
end subroutine\n\
end interface\n\
type worker\n\
procedure(callback), pointer, nopass :: hook => null()\n\
contains\n\
procedure :: run => run_worker\n\
end type\n\
contains\n\
subroutine run_worker(self)\n\
type(worker) :: self\n\
end subroutine\n\
end module",
    );

    let hook = parsed.symbols.iter().find(|s| s.name == "hook").unwrap();
    assert_eq!(hook.kind, SymbolKind::Variable);
    let run = parsed.symbols.iter().find(|s| s.name == "run").unwrap();
    assert_eq!(run.kind, SymbolKind::Method);
}

#[test]
fn records_type_bound_operator_and_assignment_generics() {
    let parsed = ParsedFile::parse(
        "types.f90",
        "module m\n\
type :: vector\n\
contains\n\
procedure :: add => add_vector\n\
procedure :: assign => assign_vector\n\
generic :: operator(+) => add\n\
generic :: assignment(=) => assign\n\
end type\n\
end module",
    );

    assert_eq!(parsed.generic_bindings.len(), 2);
    assert_eq!(parsed.generic_bindings[0].name, "operator(+)");
    assert_eq!(
        parsed.generic_bindings[0].kind,
        GenericBindingKind::Operator
    );
    assert_eq!(parsed.generic_bindings[0].procedures, vec!["add"]);
    assert_eq!(parsed.generic_bindings[1].name, "assignment(=)");
    assert_eq!(
        parsed.generic_bindings[1].kind,
        GenericBindingKind::Assignment
    );
    assert_eq!(parsed.generic_bindings[1].procedures, vec!["assign"]);
}

#[test]
fn records_preprocessor_directives_definitions_and_regions() {
    let parsed = ParsedFile::parse(
        "pp.F90",
        "#define USE_FAST 1\nmodule m\n#ifdef USE_FAST\ninteger :: fast\n#else\ninteger :: slow\n#endif\n#include \"config.inc\"\nend module",
    );
    assert_eq!(
        parsed
            .preprocessor
            .iter()
            .map(|directive| directive.kind)
            .collect::<Vec<_>>(),
        vec![
            PreprocessorKind::Define,
            PreprocessorKind::Ifdef,
            PreprocessorKind::Else,
            PreprocessorKind::Endif,
            PreprocessorKind::Include,
        ]
    );
    assert_eq!(
        parsed
            .preprocessor_definitions
            .get("USE_FAST")
            .map(String::as_str),
        Some("1")
    );
    assert_eq!(parsed.preprocessor_regions.len(), 2);
    assert_eq!(parsed.includes.last().unwrap().path, "config.inc");
}

#[test]
fn reports_unbalanced_preprocessor_conditionals() {
    let parsed = ParsedFile::parse("bad.F90", "#else\nmodule m\n#ifdef X\nend module");
    assert!(parsed
        .diagnostics
        .iter()
        .any(|diag| diag.message.contains("without `#if`")));
    assert!(parsed
        .diagnostics
        .iter()
        .any(|diag| diag.message.contains("unterminated")));
}

#[test]
fn reports_unterminated_scopes_but_keeps_partial_symbols() {
    let parsed = ParsedFile::parse(
        "mid_edit.f90",
        "module m\ncontains\nsubroutine work(x)\ninteger :: x\n",
    );
    assert!(parsed.symbols.iter().any(|sym| sym.name == "m"));
    assert!(parsed.symbols.iter().any(|sym| sym.name == "work"));
    assert!(parsed.symbols.iter().any(|sym| sym.name == "x"));
    assert!(parsed
        .diagnostics
        .iter()
        .any(|diag| diag.message.contains("unterminated module scope")));
    assert!(parsed
        .diagnostics
        .iter()
        .any(|diag| diag.message.contains("unterminated subroutine scope")));
}

#[test]
fn reports_half_typed_use_without_panicking() {
    let parsed = ParsedFile::parse(
        "mid_edit.f90",
        "program app\nuse, intrinsic ::\nend program",
    );
    assert!(parsed
        .diagnostics
        .iter()
        .any(|diag| diag.message.contains("invalid use statement")));
    assert!(parsed.symbols.iter().any(|sym| sym.name == "app"));
}

#[test]
fn unsupported_end_constructs_do_not_close_real_scopes() {
    let parsed = ParsedFile::parse(
        "loops.f90",
        "subroutine work()\ndo i = 1, 3\nend do\ninteger :: after\nend subroutine",
    );
    let after = parsed
        .symbols
        .iter()
        .find(|sym| sym.name == "after")
        .unwrap();
    assert_eq!(after.scope, vec!["work"]);
    assert!(parsed.diagnostics.is_empty());
}

#[test]
fn block_data_units_and_common_block_names_are_indexed() {
    let source = [
        "      BLOCK DATA CBLK",
        "      COMMON /SETUP/ A, B",
        "      DOUBLE PRECISION A, B",
        "      END",
        "      BLOCK DATA NAMED",
        "      COMMON /OTHER/ C",
        "      END BLOCK DATA NAMED",
        "",
    ]
    .join("\n");
    let parsed = ParsedFile::parse("bd.f", &source);
    let names: Vec<String> = parsed
        .symbols
        .iter()
        .map(|sym| sym.qualified_name())
        .collect();
    for expected in [
        "CBLK",
        "NAMED",
        "CBLK::SETUP",
        "CBLK::A",
        "NAMED::OTHER",
        "NAMED::C",
    ] {
        assert!(
            names.iter().any(|n| n == expected),
            "expected {expected} in {names:?}",
        );
    }
    assert!(parsed.diagnostics.is_empty(), "{:?}", parsed.diagnostics);
}

#[test]
fn equivalence_statements_are_tolerated_and_members_resolve() {
    let source = [
        "      SUBROUTINE S()",
        "      DOUBLE PRECISION A(10), B(10)",
        "      EQUIVALENCE (A(1), B(1))",
        "      EQUIVALENCE (A, C)",
        "      END",
        "",
    ]
    .join("\n");
    let parsed = ParsedFile::parse("eq.f", &source);
    assert!(parsed.diagnostics.is_empty(), "{:?}", parsed.diagnostics);
    // C is declared *by* the equivalence (implicit typing) — it should get a
    // symbol so hover/references work.
    assert!(parsed.symbols.iter().any(|sym| sym.name == "C"));
}

#[test]
fn statement_functions_get_local_function_symbols() {
    let source = [
        "      REAL FUNCTION G(Y)",
        "      REAL F, X",
        "      F(X) = X * 2.0",
        "      G = F(Y)",
        "      END",
        "",
    ]
    .join("\n");
    let parsed = ParsedFile::parse("sf.f", &source);
    assert!(parsed.diagnostics.is_empty(), "{:?}", parsed.diagnostics);
    let f = parsed
        .symbols
        .iter()
        .find(|sym| sym.name == "F" && sym.kind == SymbolKind::Function)
        .expect("statement function symbol");
    assert_eq!(f.scope, vec!["G"]);
    assert_eq!(f.args, vec!["X"]);
}

#[test]
fn do_concurrent_locality_names_are_scoped() {
    let source = "subroutine s()\n  integer :: i\n  real :: total\n\
                  do concurrent (i = 1:10) local(total)\n    total = total + i\n\
                  end do\nend subroutine";
    let parsed = ParsedFile::parse("dc.f90", source);
    assert!(parsed.diagnostics.is_empty(), "{:?}", parsed.diagnostics);
    // The local(total) inside the construct must not be flagged as masking,
    // and ideally gets its own construct-scoped symbol.
    assert!(!parsed
        .diagnostics
        .iter()
        .any(|d| d.message.contains("masks")),);
}

#[test]
fn coarray_declarations_are_tolerated() {
    let source = "module m\n  real :: field(10)[*]\n  integer, codimension[*] :: counter\n\
                  contains\n  subroutine step()\n    sync all\n    field(1)[1] = 0.0\n\
                  end subroutine\nend module";
    let parsed = ParsedFile::parse("ca.f90", source);
    assert!(parsed.diagnostics.is_empty(), "{:?}", parsed.diagnostics);
    assert!(parsed.symbols.iter().any(|sym| sym.name == "field"));
    assert!(parsed.symbols.iter().any(|sym| sym.name == "counter"));
}

#[test]
fn legacy_common_entry_namelist_are_indexed() {
    // Fixed-form legacy: COMMON members and ENTRY points become symbols.
    let parsed = ParsedFile::parse(
        "old.f",
        "      PROGRAM OLD\n      COMMON /BLK/ X, Y(10)\n      COMMON Z\n      END\n\
         \n      REAL FUNCTION F(A)\n      F = A * 2.0\n      ENTRY G(A)\n      G = A * 3.0\n      END\n",
    );
    let names: Vec<String> = parsed
        .symbols
        .iter()
        .map(|sym| sym.qualified_name())
        .collect();
    for expected in ["OLD::X", "OLD::Y", "OLD::Z", "F", "G"] {
        assert!(
            names.iter().any(|n| n == expected),
            "expected {expected} in {names:?}",
        );
    }
    let g = parsed
        .symbols
        .iter()
        .find(|sym| sym.name == "G")
        .expect("ENTRY symbol");
    assert_eq!(
        g.kind,
        SymbolKind::Function,
        "ENTRY inherits enclosing kind"
    );
    assert!(
        g.scope.is_empty(),
        "ENTRY is a sibling of the enclosing procedure"
    );

    // COMMON members with an explicit declaration keep the declaration symbol —
    // no duplicate-definition diagnostics.
    let modern = ParsedFile::parse(
        "mixed.f90",
        "subroutine s()\n  real :: x\n  common /blk/ x, y\n  namelist /cfg/ x, y\n\
         namelist /cfg/ y\nend subroutine",
    );
    assert!(
        modern.diagnostics.is_empty(),
        "no false positives from common/namelist: {:?}",
        modern.diagnostics,
    );
    let count = |name: &str| {
        modern
            .symbols
            .iter()
            .filter(|sym| sym.name.eq_ignore_ascii_case(name))
            .count()
    };
    assert_eq!(count("x"), 1, "declared member is not duplicated");
    assert_eq!(count("y"), 1, "common-only member gets one symbol");
    assert_eq!(count("cfg"), 1, "namelist group extension stays one symbol");
}

#[test]
fn predefined_macros_drive_preprocessor_conditionals() {
    let source = "module m\n#ifdef WITH_FAST\ninteger :: fast\n#else\ninteger :: slow\n#endif\n\
                  #if API_LEVEL >= 3\ninteger :: modern\n#endif\nend module";
    // Without the build defines: the #else branch and nothing else.
    let bare = ParsedFile::parse("cond.F90", source);
    let names: Vec<_> = bare.symbols.iter().map(|sym| sym.name.as_str()).collect();
    assert!(names.contains(&"slow"));
    assert!(!names.contains(&"fast"));
    assert!(!names.contains(&"modern"));
    // With the build's -D set: the #ifdef branch and the #if arithmetic hold.
    let defines = vec![
        ("WITH_FAST".to_string(), String::new()),
        ("API_LEVEL".to_string(), "3".to_string()),
    ];
    let defined = ParsedFile::parse_with_defines("cond.F90", source, &defines);
    let names: Vec<_> = defined
        .symbols
        .iter()
        .map(|sym| sym.name.as_str())
        .collect();
    assert!(names.contains(&"fast"));
    assert!(names.contains(&"modern"));
    assert!(!names.contains(&"slow"));
}

#[test]
fn preprocessor_conditionals_filter_inactive_symbols() {
    let parsed = ParsedFile::parse(
        "cond.F90",
        "#define USE_FAST 1\n#define API_VERSION 3\n#define FLAGS 0x6u\nmodule m\n#ifdef USE_FAST\ninteger :: fast\n#else\ninteger :: slow\n#endif\n#if defined(USE_FAST) && USE_FAST == 1\ninteger :: guarded\n#endif\n#if API_VERSION >= 3 && API_VERSION < 4\ninteger :: versioned\n#else\ninteger :: old_version\n#endif\n#if ((FLAGS & 2) != 0) && (API_VERSION + 1 == 4) && (1 << 3) == 010 && (~0 != 0) && ('A' == 65) && ('\\n' == 10) && (0b1010 % 4 == 2)\ninteger :: numeric_guard\n#else\ninteger :: numeric_fallback\n#endif\nend module",
    );
    let names: Vec<_> = parsed.symbols.iter().map(|sym| sym.name.as_str()).collect();
    assert!(names.contains(&"fast"));
    assert!(names.contains(&"guarded"));
    assert!(names.contains(&"versioned"));
    assert!(names.contains(&"numeric_guard"));
    assert!(!names.contains(&"slow"));
    assert!(!names.contains(&"old_version"));
    assert!(!names.contains(&"numeric_fallback"));
}

#[test]
fn preprocessor_directives_inside_continued_statements_stay_balanced() {
    let parsed = ParsedFile::parse(
        "iface.F90",
        r#"module fpm_os
interface
function chdir_(path) result(stat) &
#ifndef _WIN32
    bind(C, name="chdir")
#else
    bind(C, name="_chdir")
#endif
end function chdir_
end interface
end module fpm_os"#,
    );
    let messages: Vec<_> = parsed
        .diagnostics
        .iter()
        .map(|diag| diag.message.as_str())
        .collect();
    assert!(
        !messages
            .iter()
            .any(|message| message.contains("without `#if`")),
        "{messages:?}"
    );
    assert!(
        !messages
            .iter()
            .any(|message| message.contains("unterminated preprocessor")),
        "{messages:?}"
    );
}

#[test]
fn preprocessor_expands_function_like_macros_before_parsing() {
    let parsed = ParsedFile::parse(
        "macro.F90",
        "# define WRAP(PROCEDURE) PROCEDURE , wrap_/**/PROCEDURE\nmodule m\ninterface set\nmodule procedure WRAP(abc)\nend interface\ncontains\nsubroutine abc()\nend subroutine\nsubroutine wrap_abc()\nend subroutine\nend module",
    );
    let interface = parsed.symbols.iter().find(|sym| sym.name == "set").unwrap();
    assert_eq!(interface.kind, SymbolKind::Interface);
    let interface_scope = vec!["m".to_string(), "set".to_string()];
    let module_procedures: Vec<_> = parsed
        .symbols
        .iter()
        .filter(|sym| sym.scope == interface_scope)
        .map(|sym| sym.name.as_str())
        .collect();
    assert_eq!(module_procedures, vec!["abc", "wrap_abc"]);
}

#[test]
fn preprocessor_expands_object_like_macros_before_parsing() {
    let parsed = ParsedFile::parse(
        "macro.F90",
        "#define DECL integer :: from_macro\nprogram app\nDECL\nend program",
    );
    assert!(parsed.symbols.iter().any(|sym| sym.name == "from_macro"));
}

#[test]
fn inactive_preprocessor_includes_are_not_recorded() {
    let parsed = ParsedFile::parse(
        "cond_include.F90",
        "#if 0\n#include \"disabled.inc\"\n#else\n#include \"enabled.inc\"\n#endif\nprogram app\nend",
    );
    let paths: Vec<_> = parsed
        .includes
        .iter()
        .map(|stmt| stmt.path.as_str())
        .collect();
    assert_eq!(paths, vec!["enabled.inc"]);
}

fn next_u32(seed: &mut u32) -> u32 {
    *seed = seed.wrapping_mul(1_664_525).wrapping_add(1_013_904_223);
    *seed
}
