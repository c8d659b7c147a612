//! Arithmetic tools an agent can call, and the records its extractors fill.
use vstd::prelude::*;

verus! {

/// The two operands of an arithmetic tool.
#[derive(Clone, Copy, Debug, PartialEq, Eq, Structural)]
pub struct OperationArgs {
    pub x: i32,
    pub y: i32,
}

/// The result does not fit in an `i32`.
#[derive(Clone, Copy, Debug, PartialEq, Eq, Structural)]
pub struct MathError;

impl MathError {
    /// The error's message.
    pub fn message(&self) -> (r: String)
        ensures
            r@ == "Math error"@,
    {
        "Math error".to_string()
    }
}

/// The tool named `add`: `x + y`.
#[derive(Clone, Copy, Debug, PartialEq, Eq, Structural)]
pub struct Adder;

/// The tool named `subtract`: `x - y`.
#[derive(Clone, Copy, Debug, PartialEq, Eq, Structural)]
pub struct Subtract;

impl Adder {
    /// The tool's name.
    pub fn name(&self) -> (r: String)
        ensures
            r@ == "add"@,
    {
        "add".to_string()
    }

    /// `x + y`, or `MathError` when the sum leaves the `i32` range.
    pub fn call(&self, args: OperationArgs) -> (r: Result<i32, MathError>)
        ensures
            i32::MIN <= args.x + args.y <= i32::MAX ==> r == Ok::<i32, MathError>((args.x + args.y) as i32),
            !(i32::MIN <= args.x + args.y <= i32::MAX) ==> r == Err::<i32, MathError>(MathError),
    {
        match args.x.checked_add(args.y) {
            Some(v) => Ok(v),
            None => Err(MathError),
        }
    }
}

impl Subtract {
    /// The tool's name.
    pub fn name(&self) -> (r: String)
        ensures
            r@ == "subtract"@,
    {
        "subtract".to_string()
    }

    /// `x - y`, or `MathError` when the difference leaves the `i32` range.
    pub fn call(&self, args: OperationArgs) -> (r: Result<i32, MathError>)
        ensures
            i32::MIN <= args.x - args.y <= i32::MAX ==> r == Ok::<i32, MathError>((args.x - args.y) as i32),
            !(i32::MIN <= args.x - args.y <= i32::MAX) ==> r == Err::<i32, MathError>(MathError),
    {
        match args.x.checked_sub(args.y) {
            Some(v) => Ok(v),
            None => Err(MathError),
        }
    }
}

/// Names (of people or places) extracted from a text.
#[derive(Clone, Debug)]
pub struct Names {
    pub names: Vec<String>,
}

/// Topics extracted from a text.
#[derive(Clone, Debug)]
pub struct Topics {
    pub topics: Vec<String>,
}

} // verus!
