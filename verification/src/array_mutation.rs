use vstd::prelude::*;

verus! {

/// The value of `x op m` for the operators `+ - * /`; any other operator leaves `x` as it is.
pub open spec fn apply_to_member(x: u32, operation: char, m: u32) -> int {
    if operation == '+' {
        x + m
    } else if operation == '-' {
        x - m
    } else if operation == '*' {
        x * m
    } else if operation == '/' {
        x as int / m as int
    } else {
        x as int
    }
}

/// Each operator does to a member what arithmetic says, with the given operand:
/// `+ m` adds `m`, `- m` takes `m` away, `* m` multiplies by `m` (so dividing
/// the product by a nonzero `m` gives the member back), `/ m` is the floor of
/// the quotient; any other operator leaves the member as it is. In place,
/// dividing by zero also leaves it as it is.
pub proof fn law_member_operators_are_arithmetic(x: u32, m: u32, operation: char)
    ensures
        apply_to_member(x, '+', m) == x + m,
        apply_to_member(x, '-', m) == x - m,
        apply_to_member(x, '-', m) + m == x,
        apply_to_member(x, '*', m) == x * m,
        m > 0 ==> apply_to_member(x, '*', m) / (m as int) == x,
        m > 0 ==> apply_to_member(x, '/', m) * m <= x < (apply_to_member(x, '/', m) + 1) * m,
        m > 0 ==> apply_to_member(x, '/', m) >= 0,
        !is_member_operator(operation) ==> apply_to_member(x, operation, m) == x,
        apply_in_place(x, '/', 0) == x,
        !(operation == '/' && m == 0) ==> apply_in_place(x, operation, m) == apply_to_member(x, operation, m),
{
    let xi = x as int;
    let mi = m as int;
    if m > 0 {
        assert((xi * mi) / mi == xi) by (nonlinear_arith)
            requires
                mi > 0,
        ;
        assert((xi / mi) * mi <= xi < (xi / mi + 1) * mi) by (nonlinear_arith)
            requires
                xi >= 0,
                mi > 0,
        ;
        assert(xi / mi >= 0) by (nonlinear_arith)
            requires
                xi >= 0,
                mi > 0,
        ;
    }
}

/// Whether `operation` is one of `+ - * /`.
pub open spec fn is_member_operator(operation: char) -> bool {
    operation == '+' || operation == '-' || operation == '*' || operation == '/'
}

/// Whether `x op m` stays a `u32` (and, for `/`, divides by a nonzero number).
pub open spec fn member_op_defined(x: u32, operation: char, m: u32) -> bool {
    &&& (operation == '/' ==> m != 0)
    &&& 0 <= apply_to_member(x, operation, m) <= u32::MAX
}

/// Applies `op m` to every member of a five-member array and returns the new array;
/// an unknown operator returns the array unchanged.
pub fn array_mut_ownership(array: [u32; 5], operation: char, other_member: u32) -> (result: [u32; 5])
    requires
        forall|i: int| 0 <= i < 5 ==> member_op_defined(#[trigger] array@[i], operation, other_member),
    ensures
        forall|i: int|
            0 <= i < 5 ==> #[trigger] result@[i] == apply_to_member(array@[i], operation, other_member),
{
    let mut arr = array;
    let mut i: usize = 0;
    while i < 5
        invariant
            i <= 5,
            arr@.len() == 5,
            array@.len() == 5,
            forall|k: int| 0 <= k < 5 ==> member_op_defined(#[trigger] array@[k], operation, other_member),
            forall|k: int| 0 <= k < i ==> #[trigger] arr@[k] == apply_to_member(array@[k], operation, other_member),
            forall|k: int| i <= k < 5 ==> #[trigger] arr@[k] == array@[k],
            !is_member_operator(operation) ==> i == 0,
        decreases 5 - i,
    {
        assert(member_op_defined(array@[i as int], operation, other_member));
        if operation == '+' {
            arr[i] = arr[i] + other_member;
        } else if operation == '-' {
            arr[i] = arr[i] - other_member;
        } else if operation == '*' {
            arr[i] = arr[i] * other_member;
        } else if operation == '/' {
            arr[i] = arr[i] / other_member;
        } else {
            assert forall|k: int| 0 <= k < 5 implies #[trigger] arr@[k] == apply_to_member(
                array@[k],
                operation,
                other_member,
            ) by {
                assert(arr@[k] == array@[k]);
            }
            return arr;
        }
        i += 1;
    }
    arr
}

/// The new value of a member under `array_mut_mut`: division by zero, like an
/// unknown operator, leaves the member as it is.
pub open spec fn apply_in_place(x: u32, operation: char, m: u32) -> int {
    if operation == '/' && m == 0 {
        x as int
    } else {
        apply_to_member(x, operation, m)
    }
}

/// Applies `op m` to every member of the slice in place. An unknown operator,
/// or division by zero, leaves the slice unchanged.
pub fn array_mut_mut(array: &mut [u32], operation: char, other_member: u32)
    requires
        forall|i: int|
            0 <= i < old(array)@.len() ==> 0 <= #[trigger] apply_in_place(
                old(array)@[i],
                operation,
                other_member,
            ) <= u32::MAX,
    ensures
        final(array)@.len() == old(array)@.len(),
        forall|i: int|
            0 <= i < old(array)@.len() ==> #[trigger] final(array)@[i] == apply_in_place(
                old(array)@[i],
                operation,
                other_member,
            ),
{
    let ghost initial = array@;
    let n = array.len();
    let mut i: usize = 0;
    while i < n
        invariant
            n == initial.len(),
            initial == old(array)@,
            array@.len() == n,
            i <= n,
            forall|k: int|
                0 <= k < n ==> 0 <= #[trigger] apply_in_place(initial[k], operation, other_member)
                    <= u32::MAX,
            forall|k: int|
                0 <= k < i ==> #[trigger] array@[k] == apply_in_place(
                    initial[k],
                    operation,
                    other_member,
                ),
            forall|k: int| i <= k < n ==> #[trigger] array@[k] == initial[k],
            !(is_member_operator(operation) && !(operation == '/' && other_member == 0)) ==> i == 0,
        decreases n - i,
    {
        assert(0 <= apply_in_place(initial[i as int], operation, other_member) <= u32::MAX);
        if operation == '+' {
            array[i] = array[i] + other_member;
        } else if operation == '-' {
            array[i] = array[i] - other_member;
        } else if operation == '*' {
            array[i] = array[i] * other_member;
        } else if operation == '/' && other_member != 0 {
            array[i] = array[i] / other_member;
        } else {
            assert forall|k: int| 0 <= k < n implies #[trigger] array@[k] == apply_in_place(
                initial[k],
                operation,
                other_member,
            ) by {
                assert(array@[k] == initial[k]);
            }
            return;
        }
        i += 1;
    }
}

} // verus!
