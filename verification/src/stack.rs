use vstd::prelude::*;

verus! {

/// A last-in, first-out stack of values of one type.
pub struct Stack<T> {
    contents: Vec<T>,
}

/// The stack after pushing `value`: the value sits on top.
pub open spec fn stack_after_push<T>(s: Seq<T>, value: T) -> Seq<T> {
    s.push(value)
}

/// The stack and the value that popping gives: the top value leaves,
/// and popping an empty stack gives nothing and changes nothing.
pub open spec fn stack_after_pop<T>(s: Seq<T>) -> (Seq<T>, Option<T>) {
    if s.len() == 0 {
        (s, None)
    } else {
        (s.drop_last(), Some(s.last()))
    }
}

/// The value on top of the stack, if any.
pub open spec fn stack_top<T>(s: Seq<T>) -> Option<T> {
    if s.len() == 0 {
        None
    } else {
        Some(s.last())
    }
}

impl<T> View for Stack<T> {
    type V = Seq<T>;

    /// The values on the stack, bottom first.
    closed spec fn view(&self) -> Seq<T> {
        self.contents@
    }
}

impl<T> Stack<T> {
    /// An empty stack.
    pub fn new() -> (s: Self)
        ensures
            s@ == Seq::<T>::empty(),
    {
        Self { contents: Vec::new() }
    }

    /// Removes and returns the top value; `None` when the stack is empty.
    pub fn pop(&mut self) -> (r: Option<T>)
        ensures
            (final(self)@, r) == stack_after_pop(old(self)@),
    {
        self.contents.pop()
    }

    /// Puts `value` on top of the stack.
    pub fn push(&mut self, value: T)
        ensures
            final(self)@ == stack_after_push(old(self)@, value),
    {
        self.contents.push(value)
    }

    /// The top value, left on the stack; `None` when the stack is empty.
    pub fn peek(&self) -> (r: Option<&T>)
        ensures
            match r {
                Some(v) => stack_top(self@) == Some(*v),
                None => stack_top(self@) is None,
            },
    {
        let n = self.contents.len();
        if n == 0 {
            None
        } else {
            Some(&self.contents[n - 1])
        }
    }

    /// The number of values on the stack.
    pub fn len(&self) -> (n: usize)
        ensures
            n == self@.len(),
    {
        self.contents.len()
    }
}

/// Popping right after a push gives back the pushed value and the stack as it was.
pub proof fn law_pop_undoes_push<T>(s: Seq<T>, value: T)
    ensures
        stack_after_pop(stack_after_push(s, value)) == (s, Some(value)),
{
    assert(s.push(value).drop_last() =~= s);
}

/// After a push, the pushed value is on top and the stack is one value longer.
pub proof fn law_push_then_peek<T>(s: Seq<T>, value: T)
    ensures
        stack_top(stack_after_push(s, value)) == Some(value),
        stack_after_push(s, value).len() == s.len() + 1,
{
}

/// Values come off in the reverse of the order they went on.
pub proof fn law_last_in_first_out<T>(s: Seq<T>, a: T, b: T)
    ensures
        ({
            let (s1, first) = stack_after_pop(stack_after_push(stack_after_push(s, a), b));
            let (s2, second) = stack_after_pop(s1);
            first == Some(b) && second == Some(a) && s2 == s
        }),
{
    assert(s.push(a).push(b).drop_last() =~= s.push(a));
    assert(s.push(a).drop_last() =~= s);
}

/// A small value type to keep on a stack.
#[derive(Debug, PartialEq, Eq, Structural)]
pub struct MyCustomObject {
    pub value: i32,
}

impl MyCustomObject {
    /// An object holding `x`.
    pub fn new(x: i32) -> (r: Self)
        ensures
            r.value == x,
    {
        Self { value: x }
    }
}

} // verus!
