//! What a record shows to a front end: a short name and a line of detail.

use vstd::prelude::*;
use vstd::string::StringExecFns;
use crate::building::Building;

verus! {

#[verifier::external_type_specification]
#[verifier::external_body]
pub struct ExFormatError(std::fmt::Error);

/// A record that can be shown.
pub trait InfoDisplays {
    /// Named format
    fn nfmt(&self) -> Result<String, std::fmt::Error>;

    /// Detailed format
    fn dfmt(&self) -> Result<String, std::fmt::Error>;
}

/// The `Debug` form of a text, as std writes it: the text between double quotes, with the
/// characters that need it escaped.
pub uninterp spec fn debug_of_text(text: Seq<char>) -> Seq<char>;

/// Writes `text` with `format!` as its `Debug` form.
///
/// Trusted: that the form depends on the characters of the text alone.
#[verifier::external_body]
fn debug_text(text: &String) -> (shown: String)
    ensures
        shown@ == debug_of_text(text@),
{
    format!("{:?}", text)
}

/// Writes `value` with `format!` as its `Debug` form.
///
/// Nothing is claimed of the text: it is whatever the `Debug` impl of the type writes.
#[verifier::external_body]
fn debug_value<N: core::fmt::Debug>(value: &N) -> String {
    format!("{:?}", value)
}

/// Whether `shown` is a text that the `Debug` impl of `N` wrote for `value`.
pub closed spec fn shows<N: core::fmt::Debug>(value: &N, shown: Seq<char>) -> bool {
    exists|text: String| text@ == shown && call_ensures(debug_value::<N>, (value,), text)
}

/// The line of detail of a building: the four parts in this order, two spaces between them.
pub open spec fn detail_of(
    name: Seq<char>,
    inputs: Seq<char>,
    outputs: Seq<char>,
    power_usage: Seq<char>,
) -> Seq<char> {
    name + "  "@ + inputs + "  "@ + outputs + "  "@ + power_usage
}

impl<N: core::fmt::Debug> InfoDisplays for Building<N> {
    /// The name of the building.
    fn nfmt(&self) -> (shown: Result<String, std::fmt::Error>)
        ensures
            shown matches Ok(text) && text@ == self.name@,
    {
        Ok(self.name.clone())
    }

    /// The name of the building with its inputs, outputs and power usage, each in its `Debug`
    /// form, two spaces between them.
    fn dfmt(&self) -> (shown: Result<String, std::fmt::Error>)
        ensures
            shown matches Ok(text) && exists|
                inputs: Seq<char>,
                outputs: Seq<char>,
                power_usage: Seq<char>,
            |
                {
                    &&& shows(&self.inputs, inputs)
                    &&& shows(&self.outputs, outputs)
                    &&& shows(&self.power_usage, power_usage)
                    &&& text@ == detail_of(debug_of_text(self.name@), inputs, outputs, power_usage)
                },
    {
        let inputs = debug_value(&self.inputs);
        let outputs = debug_value(&self.outputs);
        let power_usage = debug_value(&self.power_usage);
        let mut text = debug_text(&self.name);
        text.append("  ");
        text.append(inputs.as_str());
        text.append("  ");
        text.append(outputs.as_str());
        text.append("  ");
        text.append(power_usage.as_str());
        assert(shows(&self.inputs, inputs@));
        assert(shows(&self.outputs, outputs@));
        assert(shows(&self.power_usage, power_usage@));
        assert(text@ == detail_of(debug_of_text(self.name@), inputs@, outputs@, power_usage@));
        Ok(text)
    }
}

} // verus!
