use vstd::prelude::*;
use crate::text::{parse_i32, parse_i32_spec, str_eq};

verus! {

/// Division that rounds toward zero, as integer `/` does in Rust. Spec-level `/`
/// is Euclidean and agrees with it on a non-negative dividend, so a negative
/// dividend is divided as its opposite.
pub open spec fn div_toward_zero(a: int, b: int) -> int {
    if a >= 0 {
        a / b
    } else {
        -((-a) / b)
    }
}

/// The value of `a op b` for the four operators `+ - * /`, and 0 for any other operator.
pub open spec fn apply_operator(a: int, op: Seq<char>, b: int) -> int {
    if op == seq!['+'] {
        a + b
    } else if op == seq!['-'] {
        a - b
    } else if op == seq!['*'] {
        a * b
    } else if op == seq!['/'] {
        div_toward_zero(a, b)
    } else {
        0
    }
}

/// The four operators mean what arithmetic says: `a + b` is the sum, `a - b`
/// the difference (negative when `b` is the larger), `a * b` the product, and
/// `a / b` divides rounding toward zero: for a non-negative dividend and a
/// positive divisor it is the floor of the quotient, and negating either
/// operand negates it. Any other operator gives 0.
pub proof fn law_operators_are_arithmetic(a: int, b: int, op: Seq<char>)
    ensures
        apply_operator(a, "+"@, b) == a + b,
        apply_operator(a, "-"@, b) == a - b,
        apply_operator(a, "-"@, b) + b == a,
        apply_operator(a, "*"@, b) == a * b,
        a >= 0 && b > 0 ==> apply_operator(a, "/"@, b) * b <= a < (apply_operator(a, "/"@, b) + 1) * b,
        a >= 0 && b > 0 ==> apply_operator(a, "/"@, b) >= 0,
        b != 0 ==> apply_operator(-a, "/"@, b) == -apply_operator(a, "/"@, b),
        b > 0 ==> apply_operator(a, "/"@, -b) == -apply_operator(a, "/"@, b),
        !is_known_operator(op) ==> apply_operator(a, op, b) == 0,
{
    reveal_strlit("+");
    reveal_strlit("-");
    reveal_strlit("*");
    reveal_strlit("/");
    assert("+"@ =~= seq!['+']);
    assert("-"@ =~= seq!['-']);
    assert("*"@ =~= seq!['*']);
    assert("/"@ =~= seq!['/']);
    assert(seq!['-'] != seq!['+']) by {
        assert(seq!['-'][0] != seq!['+'][0]);
    }
    assert(seq!['*'] != seq!['+'] && seq!['*'] != seq!['-']) by {
        assert(seq!['*'][0] != seq!['+'][0]);
        assert(seq!['*'][0] != seq!['-'][0]);
    }
    assert(seq!['/'] != seq!['+'] && seq!['/'] != seq!['-'] && seq!['/'] != seq!['*']) by {
        assert(seq!['/'][0] != seq!['+'][0]);
        assert(seq!['/'][0] != seq!['-'][0]);
        assert(seq!['/'][0] != seq!['*'][0]);
    }
    assert(apply_operator(a, "-"@, b) == a - b);
    assert(apply_operator(a, "*"@, b) == a * b);
    assert(forall|x: int| #[trigger] apply_operator(x, "/"@, b) == div_toward_zero(x, b));
    assert(forall|y: int| #[trigger] apply_operator(a, "/"@, y) == div_toward_zero(a, y));
    if b != 0 {
        assert(0int / b == 0) by (nonlinear_arith)
            requires
                b != 0,
        ;
        assert(apply_operator(-a, "/"@, b) == div_toward_zero(-a, b));
        assert(apply_operator(a, "/"@, b) == div_toward_zero(a, b));
    }
    if a >= 0 && b > 0 {
        assert((a / b) * b <= a < (a / b + 1) * b) by (nonlinear_arith)
            requires
                a >= 0,
                b > 0,
        ;
        assert(a / b >= 0) by (nonlinear_arith)
            requires
                a >= 0,
                b > 0,
        ;
    }
    if b > 0 {
        let x = if a >= 0 { a } else { -a };
        assert(x / (-b) == -(x / b)) by (nonlinear_arith)
            requires
                x >= 0,
                b > 0,
        ;
    }
}

/// The calculator answers with the value of its expression: for tokens
/// `[a, "-", b]` it gives `a - b`, for `"+"` the sum, for `"*"` the product.
pub proof fn law_calculator_value(tokens: Seq<&str>, result: i32)
    requires
        calculator_accepts(tokens),
        result == apply_operator(
            parse_i32_spec(tokens[0]@)->0 as int,
            tokens[1]@,
            parse_i32_spec(tokens[2]@)->0 as int,
        ),
    ensures
        tokens[1]@ == "-"@ ==> result == parse_i32_spec(tokens[0]@)->0 - parse_i32_spec(tokens[2]@)->0,
        tokens[1]@ == "+"@ ==> result == parse_i32_spec(tokens[0]@)->0 + parse_i32_spec(tokens[2]@)->0,
        tokens[1]@ == "*"@ ==> result == parse_i32_spec(tokens[0]@)->0 * parse_i32_spec(tokens[2]@)->0,
{
    law_operators_are_arithmetic(
        parse_i32_spec(tokens[0]@)->0 as int,
        parse_i32_spec(tokens[2]@)->0 as int,
        tokens[1]@,
    );
}

/// Whether `op` is one of the four operators the calculator knows.
pub open spec fn is_known_operator(op: Seq<char>) -> bool {
    op == seq!['+'] || op == seq!['-'] || op == seq!['*'] || op == seq!['/']
}

/// The inputs on which the calculator computes without a panic: three or more
/// tokens, two integer operands, a result that fits in an `i32`, and no division by zero.
pub open spec fn calculator_accepts(tokens: Seq<&str>) -> bool {
    &&& tokens.len() >= 3
    &&& parse_i32_spec(tokens[0]@) is Some
    &&& parse_i32_spec(tokens[2]@) is Some
    &&& (tokens[1]@ == seq!['/'] ==> parse_i32_spec(tokens[2]@)->0 != 0)
    &&& i32::MIN <= apply_operator(
        parse_i32_spec(tokens[0]@)->0 as int,
        tokens[1]@,
        parse_i32_spec(tokens[2]@)->0 as int,
    ) <= i32::MAX
}

/// Whether the operator token is one of `+ - * /`.
pub fn known_operator(op: &str) -> (r: bool)
    ensures
        r == is_known_operator(op@),
{
    proof {
        reveal_strlit("+");
        reveal_strlit("-");
        reveal_strlit("*");
        reveal_strlit("/");
        assert("+"@ =~= seq!['+']);
        assert("-"@ =~= seq!['-']);
        assert("*"@ =~= seq!['*']);
        assert("/"@ =~= seq!['/']);
    }
    str_eq(op, "+") || str_eq(op, "-") || str_eq(op, "*") || str_eq(op, "/")
}

/// Evaluates `a op b` from the tokens `[a, op, b]`; an unknown operator gives 0.
pub fn calculator_str_list(string: &[&str]) -> (result: i32)
    requires
        calculator_accepts(string@),
    ensures
        result == apply_operator(
            parse_i32_spec(string@[0]@)->0 as int,
            string@[1]@,
            parse_i32_spec(string@[2]@)->0 as int,
        ),
{
    proof {
        reveal_strlit("+");
        reveal_strlit("-");
        reveal_strlit("*");
        reveal_strlit("/");
        assert("+"@ =~= seq!['+']);
        assert("-"@ =~= seq!['-']);
        assert("*"@ =~= seq!['*']);
        assert("/"@ =~= seq!['/']);
    }
    let mut result: i32 = 0;
    let a: i32 = match parse_i32(string[0]) {
        Some(v) => v,
        None => 0,
    };
    let operation: &str = string[1];
    let b: i32 = match parse_i32(string[2]) {
        Some(v) => v,
        None => 0,
    };
    if str_eq(operation, "+") {
        result = a + b;
    } else if str_eq(operation, "-") {
        result = a - b;
    } else if str_eq(operation, "*") {
        result = a * b;
    } else if str_eq(operation, "/") {
        result = a / b;
    }
    result
}

} // verus!
