//! What is reported of valid sources: no errors but for files and modules that
//! are not there.

use fortran_lsp::intrinsics::intrinsics;
use fortran_lsp::Workspace;

/// A table of intrinsic procedures.
fn procedures() -> &'static str {
    r#"{
        "ABS": {"type": 3, "args": "A", "doc": "Intrinsic procedure."},
        "ACHAR": {"type": 3, "args": "I,KIND=kind", "doc": "Returns the character of the ASCII collating sequence."},
        "ALL": {"type": 3, "args": "MASK,DIM", "doc": "Intrinsic procedure."},
        "ALLOCATED": {"type": 3, "args": "ARRAY", "doc": "Intrinsic procedure."},
        "ANY": {"type": 3, "args": "MASK,DIM", "doc": "Intrinsic procedure."},
        "ASSOCIATED": {"type": 3, "args": "POINTER,TARGET", "doc": "Intrinsic procedure."},
        "ATAN": {"type": 3, "args": "Y,X", "doc": "Intrinsic procedure."},
        "ATAN2": {"type": 3, "args": "Y,X", "doc": "Intrinsic procedure."},
        "CEILING": {"type": 3, "args": "A,KIND=kind", "doc": "Intrinsic procedure."},
        "CHAR": {"type": 3, "args": "I,KIND=kind", "doc": "Intrinsic procedure."},
        "CMPLX": {"type": 3, "args": "X,Y,KIND=kind", "doc": "Intrinsic procedure."},
        "COMMAND_ARGUMENT_COUNT": {"type": 3, "args": "", "doc": "Intrinsic procedure."},
        "COMPLEX": {"type": 3, "args": "X,Y", "doc": "Intrinsic procedure."},
        "COS": {"type": 3, "args": "X", "doc": "Intrinsic procedure."},
        "COUNT": {"type": 3, "args": "MASK,DIM,KIND=kind", "doc": "Intrinsic procedure."},
        "CPU_TIME": {"type": 2, "args": "TIME", "doc": "Returns the processor time."},
        "DATE_AND_TIME": {"type": 2, "args": "DATE,TIME,ZONE,VALUES", "doc": "Intrinsic procedure."},
        "DBLE": {"type": 3, "args": "A", "doc": "Intrinsic procedure."},
        "DOT_PRODUCT": {"type": 3, "args": "VECTOR_A,VECTOR_B", "doc": "Intrinsic procedure."},
        "EXP": {"type": 3, "args": "X", "doc": "Intrinsic procedure."},
        "FLOOR": {"type": 3, "args": "A,KIND=kind", "doc": "Intrinsic procedure."},
        "FLUSH": {"type": 2, "args": "UNIT", "doc": "Intrinsic procedure."},
        "INDEX": {"type": 3, "args": "STRING,SUBSTRING,BACK,KIND=kind", "doc": "Intrinsic procedure."},
        "INT": {"type": 3, "args": "A,KIND=kind", "doc": "Intrinsic procedure."},
        "KIND": {"type": 3, "args": "X", "doc": "Intrinsic procedure."},
        "LEN": {"type": 3, "args": "STRING,KIND=kind", "doc": "Intrinsic procedure."},
        "LEN_TRIM": {"type": 3, "args": "STRING,KIND=kind", "doc": "Intrinsic procedure."},
        "LOC": {"type": 3, "args": "X", "doc": "Intrinsic procedure."},
        "LOGICAL": {"type": 3, "args": "L,KIND=kind", "doc": "Intrinsic procedure."},
        "MATMUL": {"type": 3, "args": "MATRIX_A,MATRIX_B", "doc": "Intrinsic procedure."},
        "MAX": {"type": 3, "args": "A1,A2", "doc": "Intrinsic procedure."},
        "MAXVAL": {"type": 3, "args": "ARRAY,DIM,MASK", "doc": "Intrinsic procedure."},
        "MERGE": {"type": 3, "args": "TSOURCE,FSOURCE,MASK", "doc": "Intrinsic procedure."},
        "MIN": {"type": 3, "args": "A1,A2", "doc": "Intrinsic procedure."},
        "MINVAL": {"type": 3, "args": "ARRAY,DIM,MASK", "doc": "Intrinsic procedure."},
        "MOD": {"type": 3, "args": "A,P", "doc": "Intrinsic procedure."},
        "NINT": {"type": 3, "args": "A,KIND=kind", "doc": "Intrinsic procedure."},
        "NULL": {"type": 3, "args": "MOLD", "doc": "Intrinsic procedure."},
        "PRESENT": {"type": 3, "args": "A", "doc": "Intrinsic procedure."},
        "PRODUCT": {"type": 3, "args": "ARRAY,DIM,MASK", "doc": "Intrinsic procedure."},
        "RANDOM_SEED": {"type": 2, "args": "SIZE,PUT,GET", "doc": "Intrinsic procedure."},
        "RANK": {"type": 3, "args": "A", "doc": "Intrinsic procedure."},
        "REAL": {"type": 3, "args": "A,KIND=kind", "doc": "Intrinsic procedure."},
        "RESHAPE": {"type": 3, "args": "SOURCE,SHAPE,PAD,ORDER", "doc": "Intrinsic procedure."},
        "SCALE": {"type": 3, "args": "X,I", "doc": "Intrinsic procedure."},
        "SELECTED_REAL_KIND": {"type": 3, "args": "P,R,RADIX", "doc": "Intrinsic procedure."},
        "SHAPE": {"type": 3, "args": "SOURCE,KIND=kind", "doc": "Intrinsic procedure."},
        "SIGN": {"type": 3, "args": "A,B", "doc": "Intrinsic procedure."},
        "SIN": {"type": 3, "args": "X", "doc": "Returns the sine."},
        "SIZE": {"type": 3, "args": "ARRAY,DIM,KIND=kind", "doc": "Intrinsic procedure."},
        "SQRT": {"type": 3, "args": "X", "doc": "Intrinsic procedure."},
        "SUM": {"type": 3, "args": "ARRAY,DIM,MASK", "doc": "Intrinsic procedure."},
        "SYSTEM_CLOCK": {"type": 2, "args": "COUNT,COUNT_RATE,COUNT_MAX", "doc": "Intrinsic procedure."},
        "TRANSFER": {"type": 3, "args": "SOURCE,MOLD,SIZE", "doc": "Intrinsic procedure."},
        "TRIM": {"type": 3, "args": "STRING", "doc": "Intrinsic procedure."},
        "UBOUND": {"type": 3, "args": "ARRAY,DIM,KIND=kind", "doc": "Intrinsic procedure."},
        "LBOUND": {"type": 3, "args": "ARRAY,DIM,KIND=kind", "doc": "Intrinsic procedure."}
    }"#
}

/// A table of intrinsic modules.
fn modules() -> &'static str {
    r#"{
        "iso_fortran_env": {"name": "iso_fortran_env", "children": [
            {"name": "int32", "type": 3},
            {"name": "int64", "type": 3},
            {"name": "real64", "type": 3}
        ]},
        "iso_c_binding": {"name": "iso_c_binding", "children": [
            {"name": "c_ptr", "type": 4},
            {"name": "c_int", "type": 3},
            {"name": "c_char", "type": 3},
            {"name": "c_null_char", "type": 3},
            {"name": "c_associated", "type": 2, "args": "c_ptr_1,c_ptr_2"},
            {"name": "c_f_pointer", "type": 1, "args": "cptr,fptr,shape"}
        ]},
        "openacc": {"name": "openacc", "children": [
            {"name": "acc_get_num_devices", "type": 2, "args": "dev_type"}
        ]},
        "ieee_arithmetic": {"name": "ieee_arithmetic", "children": [
            {"name": "ieee_is_nan", "type": 2, "args": "x", "return": "logical"}
        ]}
    }"#
}

fn workspace() -> Workspace {
    let mut ws = Workspace::new();
    ws.set_intrinsics(intrinsics(procedures(), modules()).expect("the tables are JSON"));
    ws
}

fn messages(path: &str, source: &str) -> Vec<String> {
    let mut ws = workspace();
    ws.upsert_file(path, source);
    ws.diagnostics(path).into_iter().map(|d| d.message).collect()
}

/// The hints of a source, each with its line.
fn hints(path: &str, source: &str) -> Vec<(usize, String)> {
    let mut ws = workspace();
    ws.upsert_file(path, source);
    ws.inlay_hints(path, 0, 1000)
        .into_iter()
        .map(|h| (h.position.line, h.label))
        .collect()
}

#[test]
fn valid_type_in_a_declaration() {
    let source = [
        "subroutine s(x)",
        "use iso_c_binding, only: c_int",
        "real(kind=8), intent(in) :: x(:)",
        "logical(kind=1), allocatable :: ok(:)",
        "real(8), allocatable :: v(:)",
        "complex(kind=8), pointer :: z",
        "end subroutine",
    ]
    .join("\n");
    assert_eq!(messages("a.f90", &source), Vec::<String>::new());
}

#[test]
fn valid_type_guards() {
    let source = [
        "subroutine s(x)",
        "class(*), intent(in) :: x",
        "select type (x)",
        "type is (real(kind=8))",
        "print *, x",
        "type is (real(4))",
        "print *, x",
        "type is (logical(kind=4))",
        "print *, x",
        "end select",
        "end subroutine",
    ]
    .join("\n");
    assert_eq!(messages("a.f90", &source), Vec::<String>::new());
}

#[test]
fn valid_implicit_types() {
    let source = [
        "subroutine s",
        "implicit real(kind=8) (a-h), logical(kind=4) (l)",
        "end subroutine",
    ]
    .join("\n");
    assert_eq!(messages("a.f90", &source), Vec::<String>::new());
}

#[test]
fn valid_old_declarations() {
    let source = [
        "      SUBROUTINE S",
        "      REAL(KIND=8) X(3), Y",
        "   10 X(1) = REAL(Y)",
        "      END",
        "",
    ]
    .join("\n");
    assert_eq!(messages("a.f", &source), Vec::<String>::new());
}

#[test]
fn valid_function_prefixes() {
    let source = [
        "module m",
        "contains",
        "pure real(kind=8) function f(x)",
        "real(kind=8), intent(in) :: x",
        "f = x",
        "end function",
        "real(8) elemental function g(x)",
        "real(8), intent(in) :: x",
        "g = x",
        "end function",
        "end module",
    ]
    .join("\n");
    assert_eq!(messages("a.f90", &source), Vec::<String>::new());
}

#[test]
fn valid_split_function_prefix() {
    let source = [
        "module m",
        "contains",
        "pure real(kind=8) function f(x, &",
        "  y)",
        "real(kind=8), intent(in) :: x, y",
        "f = x + y",
        "end function",
        "end module",
    ]
    .join("\n");
    assert_eq!(messages("a.f90", &source), Vec::<String>::new());
}

#[test]
fn valid_associate_names() {
    let source = [
        "program p",
        "integer :: idx(3)",
        "type t",
        "integer :: n(2)",
        "end type",
        "type(t) :: a",
        "associate (index => idx, scale => a%n)",
        "index(1) = 2",
        "print *, index(1), scale(2)",
        "end associate",
        "end program",
    ]
    .join("\n");
    assert_eq!(messages("a.f90", &source), Vec::<String>::new());
}

#[test]
fn valid_select_type_names() {
    let source = [
        "subroutine s(x)",
        "class(*), intent(in) :: x(:)",
        "select type (size => x)",
        "type is (integer)",
        "print *, size(1), size(2)",
        "end select",
        "end subroutine",
    ]
    .join("\n");
    assert_eq!(messages("a.f90", &source), Vec::<String>::new());
}

#[test]
fn valid_block_variables() {
    let source = [
        "program p",
        "block",
        "integer :: scale(3)",
        "scale(1) = 1",
        "print *, scale(1)",
        "end block",
        "end program",
    ]
    .join("\n");
    assert_eq!(messages("a.f90", &source), Vec::<String>::new());
}

#[test]
fn valid_dimension_statements() {
    let source = [
        "      SUBROUTINE S",
        "      DIMENSION SCALE(3), SIGN(2,2)",
        "      X = SCALE(1) + SIGN(1,2)",
        "      END",
        "",
    ]
    .join("\n");
    assert_eq!(messages("a.f", &source), Vec::<String>::new());
}

#[test]
fn valid_common_arrays() {
    let source = [
        "      SUBROUTINE S",
        "      COMMON /B/ SCALE(3), MOD(2)",
        "      X = SCALE(1) + MOD(1)",
        "      END",
        "",
    ]
    .join("\n");
    assert_eq!(messages("a.f", &source), Vec::<String>::new());
}

#[test]
fn valid_external_functions() {
    let source = [
        "      SUBROUTINE S(X)",
        "      EXTERNAL SCALE",
        "      REAL SCALE",
        "      X = SCALE(X)",
        "      END",
        "",
    ]
    .join("\n");
    assert_eq!(messages("a.f", &source), Vec::<String>::new());
}

#[test]
fn valid_external_only() {
    let source = [
        "      SUBROUTINE S(X)",
        "      EXTERNAL SCALE",
        "      X = SCALE(X)",
        "      END",
        "",
    ]
    .join("\n");
    assert_eq!(messages("a.f", &source), Vec::<String>::new());
}

#[test]
fn valid_dummy_functions() {
    let source = [
        "      SUBROUTINE S(SCALE, X)",
        "      X = SCALE(X)",
        "      END",
        "",
    ]
    .join("\n");
    assert_eq!(messages("a.f", &source), Vec::<String>::new());
}

#[test]
fn valid_alternate_returns() {
    let source = [
        "      SUBROUTINE S(A, *, *)",
        "      RETURN 1",
        "      END",
        "      SUBROUTINE T(A)",
        "      CALL S(A, *10, *20)",
        "   10 CONTINUE",
        "   20 CONTINUE",
        "      END",
        "",
    ]
    .join("\n");
    assert_eq!(messages("a.f", &source), Vec::<String>::new());
}

#[test]
fn valid_inactive_branch() {
    let source = [
        "module m",
        "contains",
        "#ifdef MPI",
        "subroutine f(a, b)",
        "integer :: a, b",
        "end subroutine",
        "#else",
        "subroutine f(a)",
        "integer :: a",
        "end subroutine",
        "#endif",
        "subroutine g",
        "#ifdef MPI",
        "call f(1, 2)",
        "#else",
        "call f(1)",
        "#endif",
        "end subroutine",
        "end module",
    ]
    .join("\n");
    assert_eq!(messages("a.F90", &source), Vec::<String>::new());
}

#[test]
fn valid_statements() {
    let source = [
        "program p",
        "integer :: i, scale(3), n",
        "real :: x",
        "scale(1) = 2; scale(2) = 3",
        "10 scale(3) = 4",
        "if (n > 0) scale(1) = 3",
        "where (scale > 1) scale = 2",
        "forall (i = 1:3) scale(i) = i",
        "do i = 1, size(scale)",
        "end do",
        "x = real(n) + real(n, kind=8) + real(n, 8)",
        "x = sum(scale) + maxval(scale, mask=scale > 1) + product(scale, dim=1)",
        "n = count(scale > 1) + index('ab', 'b') + size(scale, dim=1) + size(scale, 1)",
        "if (any(scale > 1) .and. all(scale > 0)) n = max(1, 2, 3)",
        "n = min(1, 2, 3, 4)",
        "print *, merge(1, 2, mask=n > 1), merge(1, 2, n > 1)",
        "print *, reshape([1, 2], [2, 1]), ubound(scale), lbound(scale, 1), shape(scale)",
        "print *, selected_real_kind(15), selected_real_kind(15, 307), cmplx(1.0), cmplx(1.0, kind=8)",
        "print *, transfer(1, 1.0), atan(1.0), sign(1, 2), mod(3, 2), len('abc'), trim('a')",
        "end program",
    ]
    .join("\n");
    assert_eq!(messages("a.f90", &source), Vec::<String>::new());
}

#[test]
fn valid_procedure_pointers() {
    let source = [
        "module m",
        "abstract interface",
        "function fun(x)",
        "real, intent(in) :: x",
        "real :: fun",
        "end function",
        "end interface",
        "contains",
        "subroutine s(scale)",
        "procedure(fun) :: scale",
        "procedure(fun), pointer :: p => null()",
        "procedure(real(kind=8)), pointer :: q",
        "print *, scale(1.0)",
        "end subroutine",
        "end module",
    ]
    .join("\n");
    assert_eq!(messages("a.f90", &source), Vec::<String>::new());
}

#[test]
fn valid_components() {
    let source = [
        "module m",
        "type t",
        "integer :: size(3)",
        "real(kind=8), allocatable :: scale(:)",
        "end type",
        "contains",
        "subroutine s(a, b)",
        "type(t), intent(inout) :: a, b(:)",
        "a%size(1) = 2",
        "b(1)%size(2) = a%scale(1)",
        "print *, a%size(1), b(2)%scale(3)",
        "end subroutine",
        "end module",
    ]
    .join("\n");
    assert_eq!(messages("a.f90", &source), Vec::<String>::new());
}

#[test]
fn valid_include() {
    let source = [
        "program p",
        "include 'missing.inc'",
        "print *, scale(1)",
        "end program",
    ]
    .join("\n");
    assert_eq!(messages("a.f90", &source), vec!["include file `missing.inc` could not be resolved"]);
}

#[test]
fn valid_results() {
    let source = [
        "module m",
        "contains",
        "function f(n) result(scale)",
        "integer, intent(in) :: n",
        "real :: scale(n)",
        "scale(1) = 1",
        "print *, scale(1)",
        "end function",
        "recursive function g(n) result(sign)",
        "integer, intent(in) :: n",
        "integer :: sign",
        "sign = g(n - 1)",
        "end function",
        "end module",
    ]
    .join("\n");
    assert_eq!(messages("a.f90", &source), Vec::<String>::new());
}

#[test]
fn valid_interfaces() {
    let source = [
        "module m",
        "interface scale",
        "module procedure scale_one",
        "end interface",
        "contains",
        "function scale_one(x) result(y)",
        "real, intent(in) :: x",
        "real :: y",
        "y = x",
        "end function",
        "subroutine s",
        "print *, scale(1.0)",
        "end subroutine",
        "end module",
    ]
    .join("\n");
    assert_eq!(messages("a.f90", &source), Vec::<String>::new());
}

#[test]
fn valid_select_rank() {
    let source = [
        "subroutine s(x)",
        "real :: x(..)",
        "select rank (x)",
        "rank (0)",
        "print *, x",
        "rank (1)",
        "print *, size(x)",
        "rank default",
        "print *, 1",
        "end select",
        "end subroutine",
    ]
    .join("\n");
    assert_eq!(messages("a.f90", &source), Vec::<String>::new());
}

#[test]
fn valid_statement_functions() {
    let source = [
        "      SUBROUTINE S(X, Y)",
        "      SCALE(A) = A * 2",
        "      Y = SCALE(X)",
        "      END",
        "",
    ]
    .join("\n");
    assert_eq!(messages("a.f", &source), Vec::<String>::new());
}

#[test]
fn valid_namelist_and_data() {
    let source = [
        "program p",
        "integer :: scale(2), mod(2)",
        "data scale(1), mod(1) /1, 2/",
        "namelist /n/ scale, mod",
        "equivalence (scale(1), mod(1))",
        "write(*, nml=n)",
        "end program",
    ]
    .join("\n");
    assert_eq!(messages("a.f90", &source), Vec::<String>::new());
}

#[test]
fn valid_continued_calls() {
    let source = [
        "program p",
        "real :: x(3)",
        "x = [real(kind=8) :: &",
        "  1.0, 2.0, &",
        "  real(3)]",
        "print *, max(1, &",
        "  2, 3), &",
        "  sin(1.0)",
        "end program",
    ]
    .join("\n");
    assert_eq!(messages("a.f90", &source), Vec::<String>::new());
}

#[test]
fn valid_overloaded_through_use() {
    let source = [
        "module n",
        "use m, only: scale",
        "contains",
        "subroutine s",
        "print *, scale(1.0)",
        "end subroutine",
        "end module",
    ]
    .join("\n");
    assert_eq!(messages("b.f90", &source), vec!["module `m` could not be resolved"]);
}

#[test]
fn valid_import() {
    let source = [
        "module m",
        "integer, parameter :: wp = 8",
        "interface",
        "subroutine s(x)",
        "import :: wp",
        "real(kind=wp), intent(in) :: x",
        "end subroutine",
        "end interface",
        "end module",
    ]
    .join("\n");
    assert_eq!(messages("a.f90", &source), Vec::<String>::new());
}

#[test]
fn valid_allocate() {
    let source = [
        "program p",
        "real(kind=8), allocatable :: x(:)",
        "class(*), allocatable :: y",
        "allocate(x(3))",
        "allocate(real(kind=8) :: y)",
        "allocate(x(3), source=real(1.0, kind=8))",
        "deallocate(x)",
        "end program",
    ]
    .join("\n");
    assert_eq!(messages("a.f90", &source), Vec::<String>::new());
}

#[test]
fn valid_entries() {
    let source = [
        "module m",
        "contains",
        "subroutine s(a, b)",
        "integer :: a",
        "integer, optional :: b",
        "entry t(a)",
        "end subroutine",
        "subroutine u",
        "call s(1)",
        "call s(1, 2)",
        "call s(1, b=2)",
        "call t(1)",
        "end subroutine",
        "end module",
    ]
    .join("\n");
    assert_eq!(messages("a.f90", &source), Vec::<String>::new());
}

#[test]
fn valid_character_lengths() {
    let source = [
        "subroutine s(a, n)",
        "integer, intent(in) :: n",
        "character(len=*), intent(in) :: a",
        "character(len=len(a)) :: b",
        "character(kind=1, len=n), allocatable :: c(:)",
        "character*(*) d",
        "character(n) :: e(3)",
        "b = a(1:2)",
        "e(1) = a(2:)",
        "end subroutine",
    ]
    .join("\n");
    assert_eq!(messages("a.f90", &source), Vec::<String>::new());
}

#[test]
fn valid_type_constructors() {
    let source = [
        "module m",
        "type point",
        "real :: x, y = 0",
        "end type",
        "contains",
        "subroutine s",
        "type(point) :: p",
        "p = point(1.0)",
        "p = point(x=1.0, y=2.0)",
        "end subroutine",
        "end module",
    ]
    .join("\n");
    assert_eq!(messages("a.f90", &source), Vec::<String>::new());
}

#[test]
fn valid_bound_procedures() {
    let source = [
        "module m",
        "type t",
        "contains",
        "procedure :: size => t_size",
        "procedure, nopass :: scale",
        "end type",
        "contains",
        "function t_size(self) result(n)",
        "class(t), intent(in) :: self",
        "integer :: n",
        "n = 1",
        "end function",
        "function scale(x) result(y)",
        "real, intent(in) :: x",
        "real :: y",
        "y = x",
        "end function",
        "subroutine s(a)",
        "type(t), intent(in) :: a",
        "print *, a%size(), a%scale(1.0)",
        "end subroutine",
        "end module",
    ]
    .join("\n");
    assert_eq!(messages("a.f90", &source), Vec::<String>::new());
}

#[test]
fn valid_first_executable_assignments() {
    let source = [
        "module m",
        "integer :: grid(10)",
        "contains",
        "subroutine s(n, w)",
        "integer, intent(in) :: n",
        "real, intent(inout) :: w(:)",
        "integer :: k",
        "grid(n) = 3",
        "w(k) = 2.0",
        "end subroutine",
        "end module",
    ]
    .join("\n");
    assert_eq!(messages("a.f90", &source), Vec::<String>::new());
}

#[test]
fn valid_first_assignment_of_used() {
    let source = [
        "subroutine s(n)",
        "use arrays",
        "integer, intent(in) :: n",
        "grid(n) = 3",
        "end subroutine",
    ]
    .join("\n");
    assert_eq!(messages("a.f90", &source), vec!["module `arrays` could not be resolved"]);
}

#[test]
fn valid_kinds_module() {
    let source = [
        "module kinds",
        "use, intrinsic :: iso_fortran_env, only: real64, int32",
        "implicit none",
        "private",
        "integer, parameter, public :: dp = real64",
        "integer, parameter, public :: i4 = int32",
        "real(dp), parameter, public :: pi = acos(-1.0_dp)",
        "end module kinds",
    ]
    .join("\n");
    assert_eq!(messages("a.f90", &source), Vec::<String>::new());
}

#[test]
fn valid_linked_list() {
    let source = [
        "module lists",
        "implicit none",
        "private",
        "public :: node, push, total",
        "type :: node",
        "integer :: value = 0",
        "type(node), pointer :: next => null()",
        "end type node",
        "contains",
        "subroutine push(head, v)",
        "type(node), pointer, intent(inout) :: head",
        "integer, intent(in) :: v",
        "type(node), pointer :: n",
        "allocate(n)",
        "n%value = v",
        "n%next => head",
        "head => n",
        "end subroutine push",
        "function total(head) result(t)",
        "type(node), pointer, intent(in) :: head",
        "integer :: t",
        "type(node), pointer :: p",
        "t = 0",
        "p => head",
        "do while (associated(p))",
        "t = t + p%value",
        "p => p%next",
        "end do",
        "end function total",
        "end module lists",
    ]
    .join("\n");
    assert_eq!(messages("a.f90", &source), Vec::<String>::new());
}

#[test]
fn valid_shapes() {
    let source = [
        "module shapes",
        "implicit none",
        "type, abstract :: shape_t",
        "contains",
        "procedure(area_i), deferred :: area",
        "procedure :: describe",
        "end type",
        "abstract interface",
        "pure function area_i(self) result(a)",
        "import :: shape_t",
        "class(shape_t), intent(in) :: self",
        "real :: a",
        "end function",
        "end interface",
        "type, extends(shape_t) :: circle",
        "real :: r = 1.0",
        "contains",
        "procedure :: area => circle_area",
        "final :: cleanup",
        "end type",
        "interface circle",
        "module procedure new_circle",
        "end interface",
        "contains",
        "pure function circle_area(self) result(a)",
        "class(circle), intent(in) :: self",
        "real :: a",
        "a = 3.14 * self%r ** 2",
        "end function",
        "subroutine describe(self)",
        "class(shape_t), intent(in) :: self",
        "print '(a, f8.3)', 'area ', self%area()",
        "end subroutine",
        "function new_circle(r) result(c)",
        "real, intent(in) :: r",
        "type(circle) :: c",
        "c%r = r",
        "end function",
        "subroutine cleanup(self)",
        "type(circle), intent(inout) :: self",
        "self%r = 0",
        "end subroutine",
        "end module",
    ]
    .join("\n");
    assert_eq!(messages("a.f90", &source), Vec::<String>::new());
}

#[test]
fn valid_operators() {
    let source = [
        "module vecs",
        "implicit none",
        "type vec",
        "real :: x, y",
        "end type",
        "interface operator(+)",
        "module procedure add_vec",
        "end interface",
        "interface operator(.dot.)",
        "module procedure dot_vec",
        "end interface",
        "interface assignment(=)",
        "module procedure from_real",
        "end interface",
        "contains",
        "elemental function add_vec(a, b) result(c)",
        "type(vec), intent(in) :: a, b",
        "type(vec) :: c",
        "c = vec(a%x + b%x, a%y + b%y)",
        "end function",
        "pure real function dot_vec(a, b)",
        "type(vec), intent(in) :: a, b",
        "dot_vec = a%x * b%x + a%y * b%y",
        "end function",
        "elemental subroutine from_real(a, r)",
        "type(vec), intent(out) :: a",
        "real, intent(in) :: r",
        "a%x = r",
        "a%y = r",
        "end subroutine",
        "end module",
    ]
    .join("\n");
    assert_eq!(messages("a.f90", &source), Vec::<String>::new());
}

#[test]
fn valid_generic_bindings() {
    let source = [
        "module g",
        "implicit none",
        "type t",
        "contains",
        "procedure, private :: add_i",
        "procedure, private :: add_r",
        "generic, public :: add => add_i, add_r",
        "generic :: operator(+) => add_i",
        "end type",
        "contains",
        "function add_i(self, n) result(r)",
        "class(t), intent(in) :: self",
        "integer, intent(in) :: n",
        "integer :: r",
        "r = n",
        "end function",
        "function add_r(self, x) result(r)",
        "class(t), intent(in) :: self",
        "real, intent(in) :: x",
        "real :: r",
        "r = x",
        "end function",
        "end module",
    ]
    .join("\n");
    assert_eq!(messages("a.f90", &source), Vec::<String>::new());
}

#[test]
fn valid_submodules() {
    let source = [
        "module parent",
        "implicit none",
        "interface",
        "module subroutine work(x)",
        "integer, intent(in) :: x",
        "end subroutine",
        "module function calc(x) result(y)",
        "integer, intent(in) :: x",
        "integer :: y",
        "end function",
        "end interface",
        "end module",
        "submodule (parent) child",
        "implicit none",
        "contains",
        "module subroutine work(x)",
        "integer, intent(in) :: x",
        "print *, x",
        "end subroutine",
        "module procedure calc",
        "y = x + 1",
        "end procedure",
        "end submodule",
    ]
    .join("\n");
    assert_eq!(messages("a.f90", &source), Vec::<String>::new());
}

#[test]
fn valid_constructs() {
    let source = [
        "program p",
        "implicit none",
        "integer :: i, j, n",
        "real, allocatable :: a(:, :)",
        "character(len=10) :: word",
        "n = 10",
        "allocate(a(n, n))",
        "outer: do i = 1, n",
        "inner: do j = 1, n",
        "if (i == j) cycle outer",
        "a(i, j) = real(i) / j",
        "end do inner",
        "end do outer",
        "select case (n)",
        "case (1:5)",
        "print *, 'small'",
        "case (10)",
        "print *, 'ten'",
        "case default",
        "print *, 'other'",
        "end select",
        "where (a > 0.5)",
        "a = 0",
        "elsewhere",
        "a = 1",
        "end where",
        "check: if (n > 3) then",
        "print *, n",
        "else if (n < 0) then check",
        "print *, -n",
        "else check",
        "print *, 0",
        "end if check",
        "block",
        "integer :: k",
        "k = 3",
        "print *, k",
        "end block",
        "associate (x => a(1, 1), m => n)",
        "x = m",
        "end associate",
        "do concurrent (i = 1:n, j = 1:n, i /= j)",
        "a(i, j) = 0",
        "end do",
        "forall (i = 1:n) a(i, i) = 1",
        "open(newunit=n, file='x', status='old', err=100, iostat=i)",
        "read(n, *, end=100) word",
        "write(*, '(a)') word(1:3)",
        "100 continue",
        "close(n)",
        "if (allocated(a)) deallocate(a)",
        "stop 1",
        "end program",
    ]
    .join("\n");
    assert_eq!(messages("a.f90", &source), Vec::<String>::new());
}

#[test]
fn valid_legacy_program() {
    let source = [
        "C     COMMENT",
        "      PROGRAM OLD",
        "      IMPLICIT REAL*8 (A-H, O-Z)",
        "      PARAMETER (N = 10)",
        "      DIMENSION A(N), B(N, N)",
        "      COMMON /WORK/ W(100), NW",
        "      CHARACTER*8 NAME",
        "      LOGICAL FLAG",
        "      DATA FLAG /.TRUE./, NAME /'X'/",
        "      EXTERNAL FUNC",
        "      DO 10 I = 1, N",
        "         A(I) = FUNC(I) +",
        "     &          B(I, 1)",
        "   10 CONTINUE",
        "      IF (FLAG) GO TO 20",
        "      CALL SUB(A, B, N, *30)",
        "   20 WRITE (6, 100) (A(I), I = 1, N)",
        "   30 STOP",
        "  100 FORMAT (1X, 10F8.3)",
        "      END",
        "      FUNCTION FUNC(I)",
        "      REAL*8 FUNC",
        "      FUNC = DBLE(I)",
        "      RETURN",
        "      END",
        "      SUBROUTINE SUB(A, B, N, *)",
        "      REAL*8 A(N), B(N, *)",
        "      INTEGER N",
        "      A(1) = B(1, 1)",
        "      RETURN 1",
        "      END",
        "      BLOCK DATA",
        "      COMMON /WORK/ W(100), NW",
        "      DATA NW /3/",
        "      END",
        "",
    ]
    .join("\n");
    assert_eq!(messages("a.f", &source), Vec::<String>::new());
}

#[test]
fn valid_interfaces_and_procedures() {
    let source = [
        "module solver",
        "implicit none",
        "private",
        "public :: solve, callback",
        "abstract interface",
        "subroutine callback(x, y)",
        "real, intent(in) :: x(:)",
        "real, intent(out) :: y(:)",
        "end subroutine",
        "end interface",
        "interface solve",
        "module procedure :: solve_one, solve_two",
        "end interface",
        "contains",
        "subroutine solve_one(f, x)",
        "procedure(callback) :: f",
        "real, intent(inout) :: x(:)",
        "real :: y(size(x))",
        "call f(x, y)",
        "x = y",
        "end subroutine",
        "subroutine solve_two(f, x, n)",
        "procedure(callback) :: f",
        "real, intent(inout) :: x(:)",
        "integer, intent(in) :: n",
        "integer :: i",
        "do i = 1, n",
        "call solve_one(f, x)",
        "end do",
        "end subroutine",
        "end module",
    ]
    .join("\n");
    assert_eq!(messages("a.f90", &source), Vec::<String>::new());
}

#[test]
fn valid_c_binding() {
    let source = [
        "module cb",
        "use, intrinsic :: iso_c_binding, only: c_int, c_char, c_ptr, c_null_char",
        "implicit none",
        "interface",
        "function c_strlen(s) bind(c, name='strlen') result(n)",
        "import :: c_int, c_ptr",
        "type(c_ptr), value :: s",
        "integer(c_int) :: n",
        "end function",
        "end interface",
        "type, bind(c) :: pair",
        "integer(c_int) :: a",
        "integer(kind=c_int) :: b",
        "end type",
        "enum, bind(c)",
        "enumerator :: red = 1, green",
        "enumerator blue",
        "end enum",
        "contains",
        "subroutine hello(n) bind(c)",
        "integer(c_int), value :: n",
        "character(kind=c_char), dimension(n) :: buf",
        "buf(n) = c_null_char",
        "end subroutine",
        "end module",
    ]
    .join("\n");
    assert_eq!(messages("a.f90", &source), Vec::<String>::new());
}

#[test]
fn valid_pdt_and_coarrays() {
    let source = [
        "module pdt",
        "implicit none",
        "type :: matrix(k, n)",
        "integer, kind :: k = 4",
        "integer, len :: n",
        "real(kind=k) :: v(n, n)",
        "end type",
        "integer :: counter[*]",
        "contains",
        "subroutine s(a)",
        "type(matrix(k=8, n=*)), intent(in) :: a",
        "sync all",
        "counter[1] = 2",
        "print *, a%n",
        "end subroutine",
        "end module",
    ]
    .join("\n");
    assert_eq!(messages("a.f90", &source), Vec::<String>::new());
}

#[test]
fn valid_one_line_ifs_and_labels() {
    let source = [
        "subroutine s(n, x)",
        "implicit none",
        "integer, intent(in) :: n",
        "real, intent(inout) :: x(n)",
        "integer :: i",
        "do i = 1, n; x(i) = x(i) + 1; end do",
        "if (n > 1) then; x(1) = 0; end if",
        "if (n == 2) return",
        "10 format(3(1x, f5.2))",
        "write(*, 10) x",
        "go to 20",
        "20 continue",
        "end subroutine s",
    ]
    .join("\n");
    assert_eq!(messages("a.f90", &source), Vec::<String>::new());
}

#[test]
fn valid_recursive_and_pure() {
    let source = [
        "module r",
        "implicit none",
        "contains",
        "recursive integer function fact(n) result(f)",
        "integer, intent(in) :: n",
        "if (n <= 1) then",
        "f = 1",
        "else",
        "f = n * fact(n - 1)",
        "end if",
        "end function",
        "elemental pure logical function is_even(n)",
        "integer, intent(in) :: n",
        "is_even = mod(n, 2) == 0",
        "end function",
        "character(len=3) function code(n)",
        "integer, intent(in) :: n",
        "code = 'abc'",
        "end function",
        "type(integer) function odd(n)",
        "integer, intent(in) :: n",
        "odd = n",
        "end function",
        "end module",
    ]
    .join("\n");
    assert_eq!(messages("a.f90", &source), Vec::<String>::new());
}

#[test]
fn valid_use_renames() {
    let source = [
        "module a",
        "implicit none",
        "integer, parameter :: wp = 8",
        "integer :: total",
        "contains",
        "subroutine run(x)",
        "real(wp), intent(in) :: x",
        "print *, x",
        "end subroutine",
        "end module",
        "module b",
        "use a, only: rp => wp, go => run, total",
        "implicit none",
        "contains",
        "subroutine t(x)",
        "real(rp), intent(in) :: x",
        "call go(x)",
        "total = 1",
        "end subroutine",
        "end module",
    ]
    .join("\n");
    assert_eq!(messages("a.f90", &source), Vec::<String>::new());
}

#[test]
fn valid_optional_and_keyword() {
    let source = [
        "module o",
        "implicit none",
        "contains",
        "subroutine s(a, b, c)",
        "integer, intent(in) :: a",
        "integer, intent(in), optional :: b",
        "real, optional, intent(out) :: c",
        "if (present(b)) print *, b",
        "if (present(c)) c = 1",
        "end subroutine",
        "subroutine t",
        "real :: x",
        "call s(1)",
        "call s(1, 2)",
        "call s(1, c=x)",
        "call s(a=1, b=2, c=x)",
        "call s(1, 2, &",
        "x)",
        "end subroutine",
        "end module",
    ]
    .join("\n");
    assert_eq!(messages("a.f90", &source), Vec::<String>::new());
}

#[test]
fn valid_select_type() {
    let source = [
        "module st",
        "implicit none",
        "type base",
        "end type",
        "type, extends(base) :: child",
        "integer :: n",
        "end type",
        "contains",
        "subroutine s(x)",
        "class(base), intent(in) :: x",
        "select type (x)",
        "class is (child)",
        "print *, x%n",
        "type is (base)",
        "print *, 'base'",
        "class default",
        "print *, 'other'",
        "end select",
        "select type (y => x)",
        "type is (child)",
        "print *, y%n",
        "end select",
        "end subroutine",
        "end module",
    ]
    .join("\n");
    assert_eq!(messages("a.f90", &source), Vec::<String>::new());
}

#[test]
fn valid_nested_procedures() {
    let source = [
        "program outer",
        "implicit none",
        "integer :: n",
        "n = 3",
        "call inner(n)",
        "print *, twice(n)",
        "contains",
        "subroutine inner(k)",
        "integer, intent(in) :: k",
        "print *, k, n",
        "end subroutine inner",
        "integer function twice(k)",
        "integer, intent(in) :: k",
        "twice = 2 * k",
        "end function twice",
        "end program outer",
    ]
    .join("\n");
    assert_eq!(messages("a.f90", &source), Vec::<String>::new());
}

#[test]
fn valid_namelists() {
    let source = [
        "program nl",
        "implicit none",
        "integer :: a, b(3)",
        "real :: c",
        "namelist /input/ a, b, c",
        "read(5, nml=input)",
        "end program",
    ]
    .join("\n");
    assert_eq!(messages("a.f90", &source), Vec::<String>::new());
}

#[test]
fn valid_strings_with_quotes() {
    let source = [
        "program q",
        "implicit none",
        "character(len=40) :: s",
        "s = 'it''s (a) test' // \"end program\"",
        "s = 'a ! b' ! comment (call x(1,2))",
        "print *, \"say \"\"hi\"\" subroutine x\"",
        "end program q",
    ]
    .join("\n");
    assert_eq!(messages("a.f90", &source), Vec::<String>::new());
}

#[test]
fn valid_continuations() {
    let source = [
        "program c",
        "implicit none",
        "integer :: a, & ! first",
        "  b, &",
        "",
        "  ! comment",
        "  d",
        "a = 1 + &",
        "    & 2",
        "b = a; d = b",
        "call long_name(a, &",
        "  b, &",
        "  d)",
        "contains",
        "subroutine long_name( &",
        "  x, &",
        "  y, &",
        "  z)",
        "integer, intent(in) :: x, y, z",
        "print *, x, y, z",
        "end subroutine long_name",
        "end program c",
    ]
    .join("\n");
    assert_eq!(messages("a.f90", &source), Vec::<String>::new());
}

#[test]
fn valid_preprocessor() {
    let source = [
        "#define N 3",
        "#include \"none.h\"",
        "module pp",
        "implicit none",
        "#if defined(N) && N > 2",
        "integer :: big(N)",
        "#else",
        "integer :: small",
        "#endif",
        "#ifndef X",
        "integer :: y",
        "#endif",
        "end module pp",
    ]
    .join("\n");
    assert_eq!(messages("a.F90", &source), vec!["include file `none.h` could not be resolved"]);
}

#[test]
fn valid_derived_io() {
    let source = [
        "module dio",
        "implicit none",
        "type t",
        "integer :: n",
        "contains",
        "procedure :: write_t",
        "generic :: write(formatted) => write_t",
        "end type",
        "contains",
        "subroutine write_t(dtv, unit, iotype, v_list, iostat, iomsg)",
        "class(t), intent(in) :: dtv",
        "integer, intent(in) :: unit",
        "character(*), intent(in) :: iotype",
        "integer, intent(in) :: v_list(:)",
        "integer, intent(out) :: iostat",
        "character(*), intent(inout) :: iomsg",
        "write(unit, *, iostat=iostat, iomsg=iomsg) dtv%n",
        "end subroutine",
        "end module",
    ]
    .join("\n");
    assert_eq!(messages("a.f90", &source), Vec::<String>::new());
}

#[test]
fn valid_save_data_pointers() {
    let source = [
        "module sd",
        "implicit none",
        "real, target, save :: a(10) = 0.0",
        "real, pointer :: p(:) => null(), q => null()",
        "integer, dimension(:), allocatable, save :: idx",
        "character(len=:), allocatable :: text",
        "procedure(), pointer :: proc => null()",
        "logical, protected :: ready = .false.",
        "contains",
        "subroutine init",
        "allocate(idx(3), source=0)",
        "p => a(1:3)",
        "q => a(1)",
        "text = 'abc'",
        "ready = .true.",
        "nullify(p)",
        "end subroutine",
        "end module",
    ]
    .join("\n");
    assert_eq!(messages("a.f90", &source), Vec::<String>::new());
}

#[test]
fn valid_private_types() {
    let source = [
        "module pt",
        "implicit none",
        "private",
        "type, public :: stack",
        "private",
        "integer, allocatable :: items(:)",
        "integer :: n = 0",
        "contains",
        "private",
        "procedure, public :: push => stack_push",
        "procedure, public :: size => stack_size",
        "end type",
        "contains",
        "subroutine stack_push(this, item)",
        "class(stack), intent(inout) :: this",
        "integer, intent(in) :: item",
        "this%n = this%n + 1",
        "this%items = [this%items, item]",
        "end subroutine",
        "pure integer function stack_size(this)",
        "class(stack), intent(in) :: this",
        "stack_size = this%n",
        "end function",
        "end module",
        "program main",
        "use pt, only: stack",
        "implicit none",
        "type(stack) :: s",
        "call s%push(3)",
        "print *, s%size()",
        "end program",
    ]
    .join("\n");
    assert_eq!(messages("a.f90", &source), Vec::<String>::new());
}

#[test]
fn valid_do_loops() {
    let source = [
        "subroutine d(n, a)",
        "integer n",
        "real a(n)",
        "do 10 i = 1, n",
        "10 a(i) = 0",
        "do 20, i = 1, n",
        "a(i) = 1",
        "20 end do",
        "do",
        "exit",
        "end do",
        "do while (n > 3)",
        "exit",
        "enddo",
        "if (n .gt. 2) then",
        "a(1) = 2",
        "elseif (n .lt. 0) then",
        "a(2) = 3",
        "endif",
        "end",
    ]
    .join("\n");
    assert_eq!(messages("a.f90", &source), Vec::<String>::new());
}

#[test]
fn valid_functions_with_types() {
    let source = [
        "real function f1(x)",
        "real x",
        "f1 = x",
        "end",
        "double precision function f2(x)",
        "double precision x",
        "f2 = x",
        "end",
        "complex(8) function f3(x)",
        "complex(8) x",
        "f3 = x",
        "end",
        "integer*4 function f4(x)",
        "real*8 x",
        "f4 = x",
        "end",
    ]
    .join("\n");
    assert_eq!(messages("a.f90", &source), Vec::<String>::new());
}

#[test]
fn valid_openmp() {
    let source = [
        "program omp",
        "!$ use omp_lib",
        "implicit none",
        "integer :: i",
        "!$omp parallel do private(i)",
        "do i = 1, 10",
        "print *, i",
        "end do",
        "!$omp end parallel do",
        "end program",
    ]
    .join("\n");
    assert_eq!(messages("a.f90", &source), Vec::<String>::new());
}

#[test]
fn valid_equivalence_and_entry() {
    let source = [
        "      SUBROUTINE S(A, N)",
        "      INTEGER N",
        "      REAL A(N), B(10), C",
        "      EQUIVALENCE (B(1), C)",
        "      SAVE B",
        "      ENTRY T(A)",
        "      B(1) = A(1)",
        "      END",
        "",
    ]
    .join("\n");
    assert_eq!(messages("a.f", &source), Vec::<String>::new());
}

#[test]
fn valid_intrinsic_statement() {
    let source = [
        "      PROGRAM P",
        "      INTRINSIC SIN, COS",
        "      REAL X",
        "      X = SIN(1.0) + COS(X)",
        "      CALL APPLY(SIN, X)",
        "      END",
        "      SUBROUTINE APPLY(F, X)",
        "      EXTERNAL F",
        "      REAL F, X",
        "      X = F(X)",
        "      END",
        "",
    ]
    .join("\n");
    assert_eq!(messages("a.f", &source), Vec::<String>::new());
}

#[test]
fn valid_arrays() {
    let source = [
        "program ar",
        "implicit none",
        "integer, parameter :: n = 3",
        "real :: a(n), b(0:n), c(-1:1, n)",
        "real, dimension(n, n) :: m, k",
        "integer :: i",
        "a = [(real(i), i = 1, n)]",
        "b(0:) = 0; b(:n) = 1; c(:, 1) = a",
        "m = reshape([1.0, 2.0, 3.0, 4.0, 5.0, 6.0, 7.0, 8.0, 9.0], [n, n])",
        "k = matmul(m, transpose(m))",
        "print *, dot_product(a, a), sum(m, dim=1), maxloc(a), minval(a)",
        "end program",
    ]
    .join("\n");
    assert_eq!(messages("a.f90", &source), Vec::<String>::new());
}

#[test]
fn valid_error_stop() {
    let source = [
        "program es",
        "implicit none",
        "integer :: ierr",
        "call execute_command_line('ls', exitstat=ierr)",
        "if (ierr /= 0) error stop 'failed'",
        "call get_command_argument(1, length=ierr)",
        "call random_number(x)",
        "call cpu_time(t)",
        "contains",
        "end program",
    ]
    .join("\n");
    assert_eq!(messages("a.f90", &source), Vec::<String>::new());
}

#[test]
fn valid_kind_expressions() {
    let source = [
        "module k",
        "use iso_fortran_env",
        "use iso_c_binding",
        "implicit none",
        "real(kind=kind(1.0d0)) :: a",
        "real(selected_real_kind(15)) :: b",
        "integer(kind=selected_int_kind(9)) :: c",
        "real(real64) :: d",
        "integer(c_int) :: e",
        "real(kind=kind(a)) :: f",
        "integer(8) :: g",
        "real*8 h",
        "character(kind=selected_char_kind('ISO_10646'), len=3) :: s",
        "end module",
    ]
    .join("\n");
    assert_eq!(messages("a.f90", &source), Vec::<String>::new());
}

#[test]
fn valid_types_in_order() {
    let source = [
        "module t",
        "implicit none",
        "type a",
        "type(b), pointer :: p => null()",
        "class(*), allocatable :: q",
        "end type",
        "type b",
        "type(a) :: x",
        "end type",
        "contains",
        "subroutine s(x, y, z)",
        "type(*), intent(in) :: x",
        "type(integer), intent(in) :: y",
        "class(a), intent(in) :: z",
        "end subroutine",
        "end module",
    ]
    .join("\n");
    assert_eq!(messages("a.f90", &source), Vec::<String>::new());
}

#[test]
fn valid_imports() {
    let source = [
        "module i",
        "implicit none",
        "integer, parameter :: wp = 8",
        "type t",
        "end type",
        "interface",
        "subroutine a(x)",
        "import",
        "real(wp) :: x",
        "end subroutine",
        "subroutine b(x)",
        "import, all",
        "type(t) :: x",
        "end subroutine",
        "subroutine c(x)",
        "import, only: wp",
        "real(wp) :: x",
        "end subroutine",
        "subroutine d(x)",
        "import wp, t",
        "real(wp) :: x",
        "end subroutine",
        "module subroutine e(x)",
        "type(t) :: x",
        "real(wp) :: y",
        "end subroutine",
        "end interface",
        "end module",
    ]
    .join("\n");
    assert_eq!(messages("a.f90", &source), Vec::<String>::new());
}

#[test]
fn valid_arguments() {
    let source = [
        "module g",
        "implicit none",
        "abstract interface",
        "function fi(x) result(y)",
        "real, intent(in) :: x",
        "real :: y",
        "end function",
        "end interface",
        "contains",
        "subroutine s(f, g, h, n, a, b, c)",
        "procedure(fi) :: f",
        "procedure(fi), optional :: g",
        "interface",
        "function h(x)",
        "real, intent(in) :: x",
        "real :: h",
        "end function",
        "end interface",
        "integer, intent(in) :: n",
        "real, dimension(n), intent(in) :: a",
        "real, intent(out) :: b(n), &",
        " c(n)",
        "b = a",
        "c = a",
        "end subroutine",
        "subroutine t(k, x)",
        "external :: k",
        "integer :: x",
        "call k(x)",
        "end subroutine",
        "subroutine u(a, b)",
        "integer :: a, b",
        "intent(in) :: a",
        "intent(out) b",
        "b = a",
        "end subroutine",
        "end module",
    ]
    .join("\n");
    assert_eq!(messages("a.f90", &source), Vec::<String>::new());
}

#[test]
fn valid_implicit_arguments() {
    let source = [
        "      SUBROUTINE S(A, N, F)",
        "      DIMENSION A(N)",
        "      EXTERNAL F",
        "      DO 20 I = 1, N",
        "      DO 20 J = 1, N",
        "   20 A(I) = F(J)",
        "      END",
        "",
    ]
    .join("\n");
    assert_eq!(messages("a.f", &source), Vec::<String>::new());
}

#[test]
fn valid_end_names() {
    let source = [
        "program e",
        "implicit none",
        "integer :: endpoint(3), end_time, enddata, ending",
        "endpoint(1) = 2",
        "end_time = 3",
        "enddata = 1",
        "ending = 4",
        "if (ending > 3) end_time = 1",
        "end program e",
    ]
    .join("\n");
    assert_eq!(messages("a.f90", &source), Vec::<String>::new());
}

#[test]
fn valid_keyword_names() {
    let source = [
        "program kw",
        "implicit none",
        "real :: function_value, result, data, len_x",
        "integer :: module_name, subroutine_count, program_id, do_it, if_flag, select_case, where_am_i",
        "integer :: type_id, associate_id, enum_value, critical_x, block_size, procedure_x, use_x, interface_n, contains_x",
        "function_value = 1",
        "module_name = 2",
        "subroutine_count = 3",
        "program_id = 4",
        "do_it = 5",
        "if_flag = 6",
        "select_case = 7",
        "where_am_i = 8",
        "type_id = 9",
        "associate_id = 10",
        "enum_value = 11",
        "critical_x = 12",
        "block_size = 13",
        "procedure_x = 14",
        "use_x = 15",
        "interface_n = 16",
        "contains_x = 17",
        "result = 1.0",
        "data = 2.0",
        "end program",
    ]
    .join("\n");
    assert_eq!(messages("a.f90", &source), Vec::<String>::new());
}

#[test]
fn valid_keyword_variables() {
    let source = [
        "program kv",
        "implicit none",
        "integer :: block, type, do, if, where, program, function, end",
        "block = 1",
        "type = 2",
        "function = 3",
        "program = 4",
        "where = 5",
        "end program",
    ]
    .join("\n");
    assert_eq!(messages("a.f90", &source), Vec::<String>::new());
}

#[test]
fn valid_one_liners() {
    let source = [
        "subroutine ol(a, b, n)",
        "integer, intent(in) :: n",
        "real, intent(inout) :: a(n), b(n)",
        "where (a > 0) b = 1",
        "forall (i = 1:n) a(i) = b(i)",
        "if (n > 0) a(1) = 1",
        "if (n > 1) then ! note",
        "a = 0",
        "end if",
        "end subroutine",
    ]
    .join("\n");
    assert_eq!(messages("a.f90", &source), Vec::<String>::new());
}

#[test]
fn valid_shared_ends() {
    let source = [
        "      SUBROUTINE S(A, N)",
        "      REAL A(N, N)",
        "      DO 10 I = 1, N",
        "      DO 10 J = 1, N",
        "      IF (I .EQ. J) THEN",
        "      A(I, J) = 1",
        "      ELSE",
        "      A(I, J) = 0",
        "      ENDIF",
        "   10 CONTINUE",
        "      DO 30 K = 1, N",
        "      A(K, 1) = 2",
        "   30 A(1, K) = 3",
        "      RETURN",
        "      END",
        "",
    ]
    .join("\n");
    assert_eq!(messages("a.f", &source), Vec::<String>::new());
}

#[test]
fn valid_constructs_ends() {
    let source = [
        "program ce",
        "implicit none",
        "integer :: i",
        "real :: x(3)",
        "critical",
        "i = 1",
        "end critical",
        "associate (y => x)",
        "y = 1",
        "endassociate",
        "block",
        "i = 2",
        "endblock",
        "select case (i)",
        "case (1)",
        "i = 1",
        "endselect",
        "where (x > 0)",
        "x = 1",
        "else where (x < 0)",
        "x = 2",
        "endwhere",
        "forall (i = 1:3)",
        "x(i) = 1",
        "endforall",
        "do concurrent (integer :: j = 1:3)",
        "x(j) = 1",
        "enddo",
        "endprogram ce",
    ]
    .join("\n");
    assert_eq!(messages("a.f90", &source), Vec::<String>::new());
}

#[test]
fn valid_inherited_bindings() {
    let source = [
        "module ib",
        "implicit none",
        "type, abstract :: base",
        "contains",
        "procedure(run_i), deferred :: run",
        "procedure(run_i), deferred, nopass :: free",
        "procedure, non_overridable :: fixed",
        "end type",
        "type, abstract, extends(base) :: middle",
        "contains",
        "procedure :: run => middle_run",
        "end type",
        "type, extends(middle) :: leaf",
        "contains",
        "procedure, nopass :: free => leaf_free",
        "generic :: go => run, fixed",
        "end type",
        "abstract interface",
        "subroutine run_i()",
        "end subroutine",
        "end interface",
        "contains",
        "subroutine middle_run()",
        "end subroutine",
        "subroutine leaf_free()",
        "end subroutine",
        "subroutine fixed(self)",
        "class(base), intent(in) :: self",
        "end subroutine",
        "end module",
    ]
    .join("\n");
    assert_eq!(messages("a.f90", &source), Vec::<String>::new());
}

#[test]
fn valid_pass_attributes() {
    let source = [
        "module pa",
        "implicit none",
        "type t",
        "procedure(cb), pointer, nopass :: f => null()",
        "contains",
        "procedure, pass(self) :: m => m_impl",
        "procedure, pass(b) :: n",
        "procedure :: a, c => c_impl",
        "end type",
        "abstract interface",
        "subroutine cb(x)",
        "integer, intent(in) :: x",
        "end subroutine",
        "end interface",
        "contains",
        "subroutine m_impl(self, x)",
        "class(t), intent(in) :: self",
        "integer, intent(in) :: x",
        "end subroutine",
        "subroutine n(a, b)",
        "integer, intent(in) :: a",
        "class(t), intent(in) :: b",
        "end subroutine",
        "subroutine a(self)",
        "class(t), intent(in) :: self",
        "end subroutine",
        "subroutine c_impl(self)",
        "class(t), intent(in) :: self",
        "end subroutine",
        "subroutine test(x)",
        "type(t), intent(in) :: x",
        "call x%m(1)",
        "call x%n(2)",
        "call x%a()",
        "call x%c",
        "call x%f(3)",
        "end subroutine",
        "end module",
    ]
    .join("\n");
    assert_eq!(messages("a.f90", &source), vec!["Variable \"a\" masks variable in parent scope"]);
}

#[test]
fn valid_use_operators() {
    let source = [
        "module a",
        "implicit none",
        "private",
        "type, public :: v",
        "integer :: n",
        "end type",
        "public :: operator(+), operator(.dot.), assignment(=), make, red, limit",
        "interface operator(+)",
        "module procedure plus",
        "end interface",
        "interface operator(.dot.)",
        "module procedure dot",
        "end interface",
        "interface assignment(=)",
        "module procedure set",
        "end interface",
        "interface make",
        "module procedure make_one",
        "end interface",
        "enum, bind(c)",
        "enumerator :: red = 1",
        "end enum",
        "integer, parameter :: limit = 3",
        "contains",
        "function plus(x, y) result(z)",
        "type(v), intent(in) :: x, y",
        "type(v) :: z",
        "z%n = x%n + y%n",
        "end function",
        "function dot(x, y) result(z)",
        "type(v), intent(in) :: x, y",
        "integer :: z",
        "z = x%n * y%n",
        "end function",
        "subroutine set(x, n)",
        "type(v), intent(out) :: x",
        "integer, intent(in) :: n",
        "x%n = n",
        "end subroutine",
        "function make_one(n) result(x)",
        "integer, intent(in) :: n",
        "type(v) :: x",
        "x%n = n",
        "end function",
        "end module",
        "module b",
        "use a, only: v, operator(+), operator(.dot.), assignment(=), make, red, limit",
        "implicit none",
        "public",
        "end module",
        "module c",
        "use b, only: vec => v, make, limit",
        "use a, only:",
        "use, non_intrinsic :: a, only: red",
        "implicit none",
        "contains",
        "subroutine s(x)",
        "type(vec), intent(out) :: x",
        "x = make(limit)",
        "end subroutine",
        "end module",
    ]
    .join("\n");
    assert_eq!(messages("a.f90", &source), Vec::<String>::new());
}

#[test]
fn valid_host_types() {
    let source = [
        "program ht",
        "implicit none",
        "type point",
        "real :: x",
        "end type",
        "type(point) :: p",
        "call s(p)",
        "contains",
        "subroutine s(q)",
        "type(point), intent(inout) :: q",
        "q%x = 1",
        "call t",
        "contains",
        "subroutine t",
        "end subroutine",
        "end subroutine",
        "end program",
    ]
    .join("\n");
    assert_eq!(messages("a.f90", &source), Vec::<String>::new());
}

#[test]
fn valid_internal_of_internal() {
    let source = [
        "module ii",
        "implicit none",
        "contains",
        "subroutine a(n)",
        "integer, intent(in) :: n",
        "call b(n)",
        "print *, c(n)",
        "contains",
        "subroutine b(k)",
        "integer, intent(in) :: k",
        "print *, k",
        "end subroutine",
        "pure integer function c(k)",
        "integer, intent(in) :: k",
        "c = k",
        "end function",
        "end subroutine",
        "end module",
    ]
    .join("\n");
    assert_eq!(messages("a.f90", &source), Vec::<String>::new());
}

#[test]
fn valid_block_locals() {
    let source = [
        "subroutine bl(n)",
        "implicit none",
        "integer, intent(in) :: n",
        "block",
        "integer :: i",
        "i = n",
        "block",
        "real :: i2",
        "i2 = i",
        "end block",
        "end block",
        "block",
        "integer :: i",
        "i = 2",
        "end block",
        "end subroutine",
    ]
    .join("\n");
    assert_eq!(messages("a.f90", &source), Vec::<String>::new());
}

#[test]
fn valid_do_locals() {
    let source = [
        "subroutine dl(n, x)",
        "implicit none",
        "integer, intent(in) :: n",
        "real, intent(inout) :: x(n)",
        "integer :: i",
        "real :: t",
        "do concurrent (i = 1:n) local(t) shared(x)",
        "t = x(i)",
        "x(i) = t",
        "end do",
        "end subroutine",
    ]
    .join("\n");
    assert_eq!(messages("a.f90", &source), Vec::<String>::new());
}

#[test]
fn valid_common_blocks() {
    let source = [
        "      SUBROUTINE A",
        "      COMMON /C/ X, Y(10), N",
        "      COMMON Z",
        "      INTEGER N",
        "      REAL X",
        "      X = Y(1)",
        "      END",
        "      SUBROUTINE B",
        "      COMMON /C/ P, Q(10), M",
        "      P = Q(2)",
        "      END",
        "",
    ]
    .join("\n");
    assert_eq!(messages("a.f", &source), Vec::<String>::new());
}

#[test]
fn valid_declared_then_dimensioned() {
    let source = [
        "      SUBROUTINE S",
        "      REAL A, B",
        "      DIMENSION A(10), B(5)",
        "      INTEGER I",
        "      PARAMETER (PI = 3.14)",
        "      DATA A /10*0.0/",
        "      SAVE A",
        "      A(1) = B(2)",
        "      END",
        "",
    ]
    .join("\n");
    assert_eq!(messages("a.f", &source), Vec::<String>::new());
}

#[test]
fn valid_implicit_result() {
    let source = [
        "function f(x)",
        "real x, f",
        "f = x",
        "end",
        "integer function g(x) result(y)",
        "real, intent(in) :: x",
        "y = int(x)",
        "end function",
        "function h(x) result(r)",
        "real, intent(in) :: x",
        "real :: r(3)",
        "r = x",
        "end function",
    ]
    .join("\n");
    assert_eq!(messages("a.f90", &source), Vec::<String>::new());
}

#[test]
fn valid_vectors_of_strings() {
    let source = [
        "program vs",
        "implicit none",
        "character(len=5) :: a(3) = ['abc  ', 'd(e) ', 'f)g  ']",
        "character(*), parameter :: s = \"x = mod(3)\"",
        "character(len=:), allocatable :: t",
        "t = trim(a(1)) // 'sin()' // s",
        "print '(3(a,1x))', a",
        "write(*, \"(a,'mod(3)')\") t",
        "end program",
    ]
    .join("\n");
    assert_eq!(messages("a.f90", &source), Vec::<String>::new());
}

#[test]
fn valid_long_string() {
    let source = [
        "program ls",
        "implicit none",
        "character(len=80) :: t",
        "t = 'call mod(3) &",
        "&and sin() more'",
        "print *, t",
        "end program",
    ]
    .join("\n");
    assert_eq!(messages("a.f90", &source), Vec::<String>::new());
}

#[test]
fn valid_semicolons() {
    let source = [
        "program sc; implicit none; integer :: i, j; i = 1; j = mod(3, 2); print *, i, j; end program sc",
    ]
    .join("\n");
    assert_eq!(messages("a.f90", &source), Vec::<String>::new());
}

#[test]
fn valid_module_procedures_list() {
    let source = [
        "module mp",
        "implicit none",
        "interface swap",
        "module procedure swap_i, swap_r",
        "procedure :: swap_c",
        "end interface swap",
        "contains",
        "subroutine swap_i(a, b)",
        "integer, intent(inout) :: a, b",
        "end subroutine",
        "subroutine swap_r(a, b)",
        "real, intent(inout) :: a, b",
        "end subroutine",
        "subroutine swap_c(a, b)",
        "character(*), intent(inout) :: a, b",
        "end subroutine",
        "subroutine t",
        "integer :: i, j",
        "real :: x, y",
        "call swap(i, j)",
        "call swap(x, y)",
        "end subroutine",
        "end module",
    ]
    .join("\n");
    assert_eq!(messages("a.f90", &source), Vec::<String>::new());
}

#[test]
fn valid_generic_intrinsic_overload() {
    let source = [
        "module gi",
        "implicit none",
        "type q",
        "real :: v",
        "end type",
        "interface abs",
        "module procedure q_abs",
        "end interface",
        "interface mod",
        "module procedure q_mod",
        "end interface",
        "contains",
        "elemental function q_abs(a) result(r)",
        "type(q), intent(in) :: a",
        "type(q) :: r",
        "r = q(abs(a%v))",
        "end function",
        "elemental function q_mod(a, p, s) result(r)",
        "type(q), intent(in) :: a, p",
        "real, intent(in) :: s",
        "type(q) :: r",
        "r = q(mod(a%v, p%v))",
        "end function",
        "end module",
    ]
    .join("\n");
    assert_eq!(messages("a.f90", &source), Vec::<String>::new());
}

#[test]
fn valid_elemental_calls_on_arrays() {
    let source = [
        "program ec",
        "implicit none",
        "real :: x(3), y(3, 3)",
        "x = sqrt(abs(x)) + sin(x(1:2:1)) + max(x, 0.0)",
        "y(:, 1) = [sin(1.0), cos(2.0), exp(x(1))]",
        "print *, (sin(x(1)), mod(3, 2), size(y, 1)), shape(y)",
        "end program",
    ]
    .join("\n");
    assert_eq!(messages("a.f90", &source), Vec::<String>::new());
}

#[test]
fn valid_function_references_without_arguments() {
    let source = [
        "module fr",
        "implicit none",
        "contains",
        "function now() result(t)",
        "real :: t",
        "call cpu_time(t)",
        "end function",
        "subroutine s",
        "real :: a",
        "a = now()",
        "print *, now(), command_argument_count()",
        "call t",
        "call t()",
        "end subroutine",
        "subroutine t",
        "end subroutine",
        "end module",
    ]
    .join("\n");
    assert_eq!(messages("a.f90", &source), vec!["Variable \"t\" masks variable in parent scope"]);
}

#[test]
fn valid_structure() {
    let source = [
        "program dec",
        "implicit none",
        "type :: outer",
        "type(inner_t), pointer :: p",
        "end type",
        "type inner_t",
        "sequence",
        "integer i",
        "end type inner_t",
        "type(outer) :: o",
        "allocate(o%p)",
        "o%p%i = mod(3, 2)",
        "end program",
    ]
    .join("\n");
    assert_eq!(messages("a.f90", &source), Vec::<String>::new());
}

#[test]
fn valid_cpp_in_procedures() {
    let source = [
        "subroutine cp(a &",
        "#ifdef MPI",
        ", comm &",
        "#endif",
        ")",
        "implicit none",
        "integer, intent(in) :: a",
        "#ifdef MPI",
        "integer, intent(in) :: comm",
        "#endif",
        "print *, a",
        "end subroutine",
    ]
    .join("\n");
    assert_eq!(messages("a.F90", &source), Vec::<String>::new());
}

#[test]
fn valid_cpp_macros_in_code() {
    let source = [
        "#define CHECK(x) if (x /= 0) stop 1",
        "#define WP kind(1.0d0)",
        "subroutine cm(n)",
        "implicit none",
        "integer, intent(in) :: n",
        "real(WP) :: y",
        "CHECK(n)",
        "y = 1.0_8",
        "end subroutine",
    ]
    .join("\n");
    assert_eq!(messages("a.F90", &source), Vec::<String>::new());
}

#[test]
fn valid_fypp_free() {
    let source = [
        "module fy",
        "implicit none",
        "contains",
        "pure function add(a, b) result(c)",
        "class(*), intent(in) :: a, b",
        "integer :: c",
        "select type (a)",
        "type is (integer)",
        "select type (b)",
        "type is (integer)",
        "c = a + b",
        "class default",
        "c = 0",
        "end select",
        "class default",
        "c = 1",
        "end select",
        "end function",
        "end module",
    ]
    .join("\n");
    assert_eq!(messages("a.f90", &source), Vec::<String>::new());
}

#[test]
fn valid_pointers_to_procedures() {
    let source = [
        "module pp",
        "implicit none",
        "interface",
        "subroutine ext(n)",
        "integer, intent(in) :: n",
        "end subroutine",
        "end interface",
        "procedure(ext), pointer :: p => null()",
        "procedure(real), pointer :: r",
        "contains",
        "subroutine s",
        "p => ext",
        "call p(3)",
        "call ext(4)",
        "end subroutine",
        "end module",
    ]
    .join("\n");
    assert_eq!(messages("a.f90", &source), Vec::<String>::new());
}

#[test]
fn valid_stmt_labels_on_decl() {
    let source = [
        "      PROGRAM P",
        "  100 FORMAT(A, F(3))",
        "      WRITE(*,100) SIN(1.0)",
        "      READ(5,*,ERR=10,END=20) X",
        "   10 X = MOD(3,2)",
        "   20 END",
        "",
    ]
    .join("\n");
    assert_eq!(messages("a.f", &source), Vec::<String>::new());
}

#[test]
fn valid_tabs() {
    let source = [
        "	PROGRAM P",
        "	REAL X(3)",
        "	X(1) = MOD(3, 2)",
        "	END",
        "",
    ]
    .join("\n");
    assert_eq!(messages("a.f", &source), Vec::<String>::new());
}

#[test]
fn valid_if_arithmetic() {
    let source = [
        "      SUBROUTINE S(I)",
        "      IF (I) 10, 20, 30",
        "   10 I = 1",
        "   20 I = 2",
        "   30 GO TO (10, 20), I",
        "      ASSIGN 10 TO L",
        "      END",
        "",
    ]
    .join("\n");
    assert_eq!(messages("a.f", &source), Vec::<String>::new());
}

#[test]
fn valid_joined_ends() {
    let source = [
        "module je",
        "implicit none",
        "type t",
        "integer :: n",
        "endtype t",
        "interface g",
        "module procedure s",
        "endinterface g",
        "contains",
        "subroutine s(x)",
        "integer, intent(in) :: x",
        "associate (y => x)",
        "print *, y",
        "endassociate",
        "endsubroutine s",
        "function f(x) result(y)",
        "integer, intent(in) :: x",
        "integer :: y, endtype",
        "endtype = 3",
        "y = x",
        "endfunction",
        "endmodule je",
        "program p",
        "use je, only: f",
        "implicit none",
        "print *, f(1)",
        "endprogram",
        "block data b",
        "common /c/ x",
        "endblockdata b",
    ]
    .join("\n");
    assert_eq!(messages("a.f90", &source), Vec::<String>::new());
}

#[test]
fn valid_module_procedures_of_submodules() {
    let source = [
        "module p",
        "implicit none",
        "interface",
        "module subroutine a(x)",
        "integer, intent(in) :: x",
        "end subroutine",
        "module function b(x) result(y)",
        "integer, intent(in) :: x",
        "integer :: y",
        "end function",
        "end interface",
        "end module",
        "submodule (p) c",
        "implicit none",
        "contains",
        "module procedure a",
        "print *, x",
        "end procedure a",
        "module procedure b",
        "y = x",
        "call helper",
        "end procedure",
        "subroutine helper",
        "end subroutine",
        "end submodule",
    ]
    .join("\n");
    assert_eq!(messages("a.f90", &source), Vec::<String>::new());
}

#[test]
fn valid_generic_across_modules() {
    let source = [
        "module ga",
        "implicit none",
        "interface swap",
        "module procedure swap_i",
        "end interface",
        "contains",
        "subroutine swap_i(a, b, c)",
        "integer, intent(inout) :: a, b, c",
        "end subroutine",
        "end module",
        "module gb",
        "use ga",
        "implicit none",
        "interface swap",
        "module procedure swap_r",
        "end interface",
        "contains",
        "subroutine swap_r(a, b)",
        "real, intent(inout) :: a, b",
        "end subroutine",
        "subroutine t",
        "integer :: i, j, k",
        "real :: x, y",
        "call swap(i, j, k)",
        "call swap(x, y)",
        "end subroutine",
        "end module",
    ]
    .join("\n");
    assert_eq!(messages("a.f90", &source), Vec::<String>::new());
}

#[test]
fn valid_words_as_names() {
    let source = [
        "subroutine wn",
        "implicit none",
        "integer :: use, include, public, entry, common, generic, import, contains, implicit, call",
        "use = 1",
        "public = 2",
        "entry = 3",
        "common = 4",
        "generic = 5",
        "import = 6",
        "contains = 7",
        "implicit = 8",
        "end subroutine",
    ]
    .join("\n");
    assert_eq!(messages("a.f90", &source), Vec::<String>::new());
}

#[test]
fn valid_same_names_in_scopes() {
    let source = [
        "module sn",
        "implicit none",
        "contains",
        "subroutine a",
        "integer :: i",
        "i = 1",
        "end subroutine",
        "subroutine b",
        "real :: i",
        "i = 2",
        "end subroutine",
        "end module",
    ]
    .join("\n");
    assert_eq!(messages("a.f90", &source), Vec::<String>::new());
}

#[test]
fn valid_select_case_names() {
    let source = [
        "program scn",
        "implicit none",
        "integer :: n",
        "n = 2",
        "name: select case (n)",
        "case (:0) name",
        "n = 1",
        "case (1, 3:5)",
        "n = 2",
        "end select name",
        "outer: associate (m => n)",
        "print *, m",
        "end associate outer",
        "b1: block",
        "integer :: k",
        "k = 1",
        "end block b1",
        "end program",
    ]
    .join("\n");
    assert_eq!(messages("a.f90", &source), Vec::<String>::new());
}

#[test]
fn valid_interface_in_procedure() {
    let source = [
        "subroutine ip(f, x)",
        "implicit none",
        "interface",
        "real function f(x)",
        "real, intent(in) :: x",
        "end function f",
        "subroutine ext(n)",
        "integer, intent(in) :: n",
        "end subroutine",
        "end interface",
        "real, intent(inout) :: x",
        "x = f(x)",
        "call ext(1)",
        "end subroutine",
    ]
    .join("\n");
    assert_eq!(messages("a.f90", &source), vec!["Variable \"x\" masks variable in parent scope"]);
}

#[test]
fn valid_type_with_same_component() {
    let source = [
        "module tc",
        "implicit none",
        "integer :: n",
        "type a",
        "integer :: n",
        "real :: x(3)",
        "end type",
        "type b",
        "integer :: n",
        "type(a) :: a",
        "end type",
        "contains",
        "function f(b) result(n)",
        "class(*), intent(in) :: b",
        "integer :: n",
        "n = 1",
        "end function",
        "end module",
    ]
    .join("\n");
    assert_eq!(messages("a.f90", &source), vec!["Variable \"n\" masks variable in parent scope"]);
}

#[test]
fn valid_old_style_types() {
    let source = [
        "program os",
        "integer*4 i, j(3)",
        "real x, y(2,2)",
        "character*10 c, d*5",
        "logical l",
        "double precision dp",
        "complex z",
        "i = 1",
        "j(1) = 2",
        "x = real(z) + aimag(z)",
        "end program",
    ]
    .join("\n");
    assert_eq!(messages("a.f90", &source), Vec::<String>::new());
}

#[test]
fn valid_where_assign() {
    let source = [
        "subroutine wa(a)",
        "implicit none",
        "real, intent(inout) :: a(:)",
        "where (a == 0) a = 1",
        "where (a > 1)",
        "a = 2",
        "elsewhere (a < 0)",
        "a = 3",
        "elsewhere",
        "a = 4",
        "end where",
        "end subroutine",
    ]
    .join("\n");
    assert_eq!(messages("a.f90", &source), Vec::<String>::new());
}

#[test]
fn valid_team() {
    let source = [
        "subroutine tm",
        "use iso_fortran_env, only: int32",
        "implicit none",
        "integer(int32) :: i",
        "i = 1",
        "critical",
        "i = 2",
        "end critical",
        "end subroutine",
    ]
    .join("\n");
    assert_eq!(messages("a.f90", &source), Vec::<String>::new());
}

#[test]
fn valid_cray() {
    let source = [
        "      SUBROUTINE CR(N)",
        "      POINTER (P, A)",
        "      REAL A(10)",
        "      STRUCTURE /S/",
        "      INTEGER I",
        "      END STRUCTURE",
        "      A(1) = N",
        "      END",
        "",
    ]
    .join("\n");
    assert_eq!(messages("a.f", &source), Vec::<String>::new());
}

#[test]
fn types_get_no_hints() {
    let source = [
        "subroutine s(x, n)",
        "real(8), intent(in) :: x",
        "real(kind=8), allocatable :: y(:)",
        "logical(4) ok",
        "class(*), intent(in) :: n",
        "select type (n)",
        "type is (real(8))",
        "print *, real(n)",
        "end select",
        "end subroutine",
    ]
    .join("\n");
    assert_eq!(hints("a.f90", &source), vec![(7, "a:".to_string())]);
}

#[test]
fn what_starts_a_statement_gets_no_hints() {
    let source = "program p\nreal :: x\nx = 1; scale(1, 2) = 3\n10 scale(1, 2) = 4\nx = 1 + &\nscale(x, 2)\nend program\n";
    assert_eq!(
        hints("a.f90", source),
        vec![(5, "x:".to_string()), (5, "i:".to_string())]
    );
}

#[test]
fn names_that_hide_intrinsics_get_no_hints() {
    let source = "      SUBROUTINE S(SCALE, X)\n      EXTERNAL SIGN\n      X = SCALE(X, 1) + SIGN(X, 2)\n      END\n";
    assert!(hints("a.f", source).is_empty());
}

#[test]
fn wrong_calls_are_reported() {
    for (call, message) in [
        ("x = real(kind=8, b=2)", "call to `real` has no argument named `b`"),
        ("x = sin()", "call to `sin` is missing required argument `x`"),
        ("x = sin(1.0, 2.0)", "call to `sin` has too many positional arguments"),
        ("x = sin(1.0, x=2.0)", "call to `sin` repeats argument `x`"),
        ("x = 1; call cpu_time()", "call to `cpu_time` is missing required argument `time`"),
        ("if (x > 1) x = mod(3)", "call to `mod` is missing required argument `p`"),
        ("x = 1 + &\nmod(3)", "call to `mod` is missing required argument `p`"),
    ] {
        let source = format!("program p\nreal :: x\n{call}\nend program\n");
        assert_eq!(messages("a.f90", &source), vec![message], "{call}");
    }
}

#[test]
fn calls_in_other_branches_are_not_reported() {
    let source = "program p\nreal :: x\n#ifdef A\nx = sin()\n#else\nx = mod(3)\n#endif\nend program\n";
    assert_eq!(
        messages("a.F90", source),
        vec!["call to `mod` is missing required argument `p`"]
    );
    let mut ws = workspace();
    ws.set_predefined_macros(vec![("A".to_string(), String::new())]);
    ws.upsert_file("a.F90", source);
    let with_macro: Vec<String> = ws.diagnostics("a.F90").into_iter().map(|d| d.message).collect();
    assert_eq!(
        with_macro,
        vec!["call to `sin` is missing required argument `x`"]
    );
}

#[test]
fn reductions_and_variadic_procedures_take_any_form() {
    for call in [
        "any(m)", "any(m, dim=1)", "count(m)", "sum(a)", "sum(a, mask=m)", "product(a, 1)",
        "maxval(a)", "minval(a, dim=1)", "max(1, 2, 3, 4)", "min(1, 2, 3)", "all(m)", "size(a)",
        "size(a, kind=8)", "merge(1, 2, mask=m(1))",
    ] {
        let source = format!("program p\nreal :: a(3), x\nlogical :: m(3)\nx = {call}\nend program\n");
        assert_eq!(messages("a.f90", &source), Vec::<String>::new(), "{call}");
    }
}

#[test]
fn elements_of_arrays_are_no_statement_functions() {
    let mut ws = workspace();
    ws.upsert_file(
        "a.f90",
        "subroutine s(n)\ninteger, intent(in) :: n\ninteger :: a(3)\na(n) = 1\nb(n) = 2\nend subroutine\n",
    );
    let symbols = &ws.index.files[0].symbols;
    assert_eq!(symbols.iter().filter(|s| s.name == "a").count(), 1);
    assert!(ws.diagnostics("a.f90").is_empty());
}
