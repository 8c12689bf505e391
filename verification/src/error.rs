//! What loading or running a model can end in.

use candle_core::Error;
use vstd::prelude::*;
use vstd::string::StringExecFns;

verus! {

/// Why a model could not be loaded or run.
#[derive(Debug)]
pub enum ModelError {
    /// The GGUF metadata has no entry under this key.
    MissingKey(String),
    /// A tensor operation, or one of the engine's blocks, failed.
    Candle(Error),
}

/// The text shown for a metadata key that is not there.
pub open spec fn missing_key_text(key: Seq<char>) -> Seq<char> {
    "cannot find "@ + key + " in metadata"@
}

/// Spells out that the metadata has no `key`.
pub fn missing_key_message(key: &str) -> (text: String)
    ensures
        text@ == missing_key_text(key@),
{
    let mut text = "cannot find ".to_owned();
    text.append(key);
    text.append(" in metadata");
    text
}

/// What is shown for a missing key is the key between two fixed phrases.
pub proof fn a_missing_key_is_named(key: Seq<char>)
    ensures
        missing_key_text(key).len() == "cannot find "@.len() + key.len() + " in metadata"@.len(),
        missing_key_text(key).take("cannot find "@.len() as int) == "cannot find "@,
        missing_key_text(key).skip("cannot find "@.len() as int).take(key.len() as int) == key,
        missing_key_text(key).skip("cannot find "@.len() + key.len() as int) == " in metadata"@,
{
    let text = missing_key_text(key);
    let first = "cannot find "@.len() as int;
    assert(text.take(first) =~= "cannot find "@);
    assert(text.skip(first).take(key.len() as int) =~= key);
    assert(text.skip(first + key.len()) =~= " in metadata"@);
}

/// A tensor result with its error made one of the model's.
pub open spec fn lifted<T>(r: Result<T, Error>) -> Result<T, ModelError> {
    match r {
        Ok(v) => Ok(v),
        Err(e) => Err(ModelError::Candle(e)),
    }
}

/// Lifting keeps what was given, and keeps every error apart from the others.
pub proof fn lifting_keeps_what_it_is_given<T>(r: Result<T, Error>)
    ensures
        lifted(r) is Ok == r is Ok,
        r is Ok ==> lifted(r)->Ok_0 == r->Ok_0,
        r is Err ==> lifted(r)->Err_0 == ModelError::Candle(r->Err_0),
{
}

/// Makes the error of a tensor result one of the model's.
pub fn lift<T>(r: Result<T, Error>) -> (s: Result<T, ModelError>)
    ensures
        s == lifted(r),
{
    match r {
        Ok(v) => Ok(v),
        Err(e) => Err(ModelError::Candle(e)),
    }
}

} // verus!
