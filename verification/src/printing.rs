//! What debug prints need of the standard library.
//!
//! What is printed goes to a writer that is not seen here, and depends on the
//! formatting options of the caller, so nothing is stated of it.

use vstd::prelude::*;

verus! {

/// `core::fmt::Formatter`, which carries the writer and the formatting options.
#[verifier::external_type_specification]
#[verifier::external_body]
pub struct ExFormatter<'a>(core::fmt::Formatter<'a>);

/// `core::fmt::Error`, which says that the writer has failed.
#[verifier::external_type_specification]
#[verifier::external_body]
pub struct ExFormatError(core::fmt::Error);

/// `core::fmt::DebugStruct`, which prints a struct field by field.
#[verifier::external_type_specification]
#[verifier::external_body]
pub struct ExDebugStruct<'a, 'b: 'a>(core::fmt::DebugStruct<'a, 'b>);

/// `core::fmt::Formatter::write_str` writes the text. Nothing is claimed of the
/// result, which is up to the writer.
pub assume_specification<'a>[ core::fmt::Formatter::<'a>::write_str ](
    formatter: &mut core::fmt::Formatter<'a>,
    data: &str,
) -> (result: core::fmt::Result);

/// `core::fmt::Formatter::debug_struct` starts to print a struct, by its name.
/// Nothing is claimed of the result.
pub assume_specification<'a, 'b>[ core::fmt::Formatter::<'a>::debug_struct ](
    formatter: &'b mut core::fmt::Formatter<'a>,
    name: &str,
) -> (result: core::fmt::DebugStruct<'b, 'a>);

/// `core::fmt::DebugStruct::field` prints one more field. Nothing is claimed of the
/// result.
pub assume_specification<'a, 'b: 'a, 'c>[ core::fmt::DebugStruct::<'a, 'b>::field ](
    printed: &'c mut core::fmt::DebugStruct<'a, 'b>,
    name: &str,
    value: &dyn core::fmt::Debug,
) -> (result: &'c mut core::fmt::DebugStruct<'a, 'b>);

/// `core::fmt::DebugStruct::finish` ends the print. Nothing is claimed of the result,
/// which is up to the writer.
pub assume_specification<'a, 'b: 'a>[ core::fmt::DebugStruct::<'a, 'b>::finish ](
    printed: &mut core::fmt::DebugStruct<'a, 'b>,
) -> (result: core::fmt::Result);

} // verus!
