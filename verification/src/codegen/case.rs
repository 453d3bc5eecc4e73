use vstd::prelude::*;

verus! {

/// The text in upper case with an underscore between its words, as the case conversion of
/// the `Inflector` crate writes it.
pub uninterp spec fn spec_screaming_snake_case(text: Seq<char>) -> Seq<char>;

/// Calls `inflector::cases::screamingsnakecase::to_screaming_snake_case`. The conversion
/// reads nothing but its argument, so the same text always gives the same result; the
/// contract gives that result a name and claims nothing else of it.
#[verifier::external_body]
fn to_screaming_snake_case(text: &str) -> (converted: String)
    ensures
        converted@ == spec_screaming_snake_case(text@),
{
    inflector::cases::screamingsnakecase::to_screaming_snake_case(text)
}

/// Appends the name of a constant made of `text`: upper case, words joined by underscores.
pub fn write_screaming_snake_case(text: &str, out: &mut String)
    ensures
        final(out)@ == old(out)@ + spec_screaming_snake_case(text@),
{
    let converted = to_screaming_snake_case(text);
    out.append(converted.as_str());
}

} // verus!
