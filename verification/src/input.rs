use vstd::prelude::*;

verus! {

/// Errors of input capture and injection, free of platform types: each
/// backend turns its own errors into text.
#[derive(Debug)]
pub enum InputError {
    X11Connection(String),
    MissingX11Extension(&'static str),
    Windows(String),
    Portal(String),
    Unsupported(&'static str),
}

/// An X11 connection error carrying the backend's message.
pub fn x11_error(message: String) -> (e: InputError)
    ensures
        e matches InputError::X11Connection(m) && m@ == message@,
{
    InputError::X11Connection(message)
}

/// A desktop portal error carrying the backend's message.
pub fn portal_error(message: String) -> (e: InputError)
    ensures
        e matches InputError::Portal(m) && m@ == message@,
{
    InputError::Portal(message)
}

} // verus!
