//! What outcomes from outside say.
use vstd::prelude::*;

verus! {

/// That something was done, or the message in its place.
pub open spec fn done_view(outcome: Result<(), String>) -> Result<(), Seq<char>> {
    match outcome {
        Ok(_) => Ok(()),
        Err(message) => Err(message@),
    }
}

/// A text, or the message in its place.
pub open spec fn text_view(outcome: Result<String, String>) -> Result<Seq<char>, Seq<char>> {
    match outcome {
        Ok(text) => Ok(text@),
        Err(message) => Err(message@),
    }
}

/// Bytes, or the message in their place.
pub open spec fn bytes_view(outcome: Result<Vec<u8>, String>) -> Result<Seq<u8>, Seq<char>> {
    match outcome {
        Ok(bytes) => Ok(bytes@),
        Err(message) => Err(message@),
    }
}

/// A value, or the message in its place.
pub open spec fn value_view<T>(outcome: Result<T, String>) -> Result<T, Seq<char>> {
    match outcome {
        Ok(value) => Ok(value),
        Err(message) => Err(message@),
    }
}

/// An outcome says what it holds: a success its value, a failure its message, and neither is
/// taken for the other.
pub proof fn law_outcomes_say_what_they_hold<T>(
    done: Result<(), String>,
    text: Result<String, String>,
    bytes: Result<Vec<u8>, String>,
    value: Result<T, String>,
)
    ensures
        done is Ok <==> done_view(done) is Ok,
        done is Err ==> done_view(done)->Err_0 == done->Err_0@,
        text is Ok ==> text_view(text) == Ok::<Seq<char>, Seq<char>>(text->Ok_0@),
        text is Err ==> text_view(text) == Err::<Seq<char>, Seq<char>>(text->Err_0@),
        bytes is Ok ==> bytes_view(bytes) == Ok::<Seq<u8>, Seq<char>>(bytes->Ok_0@),
        bytes is Err ==> bytes_view(bytes) == Err::<Seq<u8>, Seq<char>>(bytes->Err_0@),
        value is Ok ==> value_view(value) == Ok::<T, Seq<char>>(value->Ok_0),
        value is Err ==> value_view(value) == Err::<T, Seq<char>>(value->Err_0@),
{
}

} // verus!
