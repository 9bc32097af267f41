//! The two types of the script engine that the rule host holds: the sandbox
//! in which a rule source ran, and the functions that are the bodies of its
//! rules. The library keeps them and hands them on; it calls nothing of the
//! engine.

use vstd::prelude::*;
use boa_engine::Context;
use boa_engine::JsValue;

verus! {

/// `boa_engine::Context`: one sandbox of the script engine, with its
/// global object.
#[verifier::external_type_specification]
#[verifier::external_body]
pub struct ExContext(Context);

/// `boa_engine::JsValue`: a value of a script; where it is an object, a
/// handle to it. The functions that are the bodies of rules are kept as
/// such values.
#[verifier::external_type_specification]
#[verifier::external_body]
pub struct ExJsValue(JsValue);

} // verus!
