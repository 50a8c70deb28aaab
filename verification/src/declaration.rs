//! What the attributes `test`, `bench` and `fork` decide about the function
//! that they stand on, before any code is written for it.

use vstd::prelude::*;

use crate::text::same_text;

verus! {

/// The kinds of function that can run in a process of their own.
#[derive(Clone, Copy, Debug, PartialEq, Eq, Structural)]
pub enum Kind {
    /// A test.
    Test,
    /// A benchmark.
    Bench,
}

impl Kind {
    /// The name of the harness attribute that marks a function of this
    /// kind.
    pub open spec fn name(self) -> Seq<char> {
        match self {
            Kind::Test => "test"@,
            Kind::Bench => "bench"@,
        }
    }

    /// The name of the harness attribute that marks a function of this
    /// kind.
    pub fn as_str(&self) -> (name: &'static str)
        ensures
            name@ == self.name(),
    {
        match self {
            Kind::Test => "test",
            Kind::Bench => "bench",
        }
    }
}

/// One segment of a path.
#[derive(Debug, PartialEq, Eq)]
pub struct PathSegment {
    /// The identifier of the segment.
    pub ident: String,
    /// Whether generic arguments follow the identifier.
    pub has_arguments: bool,
}

/// A path as it stands in an attribute.
#[derive(Debug, PartialEq, Eq)]
pub struct AttributePath {
    /// Whether the path starts with `::`.
    pub leading_colon: bool,
    /// The segments of the path, in order.
    pub segments: Vec<PathSegment>,
}

/// What stands between the brackets of an attribute.
#[derive(Debug, PartialEq, Eq)]
pub enum Attribute {
    /// A path and nothing else.
    Path(AttributePath),
    /// A path with a list of arguments or with a value.
    Other,
}

/// `path` is the name of `kind` by itself, such as `test`.
pub open spec fn is_bare_kind(kind: Kind, path: AttributePath) -> bool {
    &&& !path.leading_colon
    &&& path.segments@.len() == 1
    &&& !path.segments@[0].has_arguments
    &&& path.segments@[0].ident@ == kind.name()
}

/// `path` names `kind` in the prelude of some edition, such as
/// `core::prelude::v1::test` or `::std::prelude::rust_2021::test`.
pub open spec fn is_prelude_kind(kind: Kind, path: AttributePath) -> bool {
    &&& path.segments@.len() == 4
    &&& forall|i: int| 0 <= i < 4 ==> !(#[trigger] path.segments@[i]).has_arguments
    &&& (path.segments@[0].ident@ == "core"@ || path.segments@[0].ident@ == "std"@)
    &&& path.segments@[1].ident@ == "prelude"@
    &&& path.segments@[3].ident@ == kind.name()
}

/// `attribute` is the harness attribute of `kind`.
pub open spec fn names_kind(kind: Kind, attribute: Attribute) -> bool {
    match attribute {
        Attribute::Path(path) => is_bare_kind(kind, path) || is_prelude_kind(kind, path),
        Attribute::Other => false,
    }
}

/// Check whether `attribute` is the harness attribute of `kind`, in one of
/// the forms
/// - `#[<kind>]`
/// - `#[core::prelude::*::<kind>]` or `#[::core::prelude::*::<kind>]`
/// - `#[std::prelude::*::<kind>]` or `#[::std::prelude::*::<kind>]`
pub fn is_attribute_kind(kind: Kind, attribute: &Attribute) -> (is_kind: bool)
    ensures
        is_kind == names_kind(kind, *attribute),
{
    let path = match attribute {
        Attribute::Path(path) => path,
        Attribute::Other => return false,
    };
    let name = kind.as_str();
    if !path.leading_colon && path.segments.len() == 1 && !path.segments[0].has_arguments
        && same_text(path.segments[0].ident.as_str(), name) {
        return true;
    } else if path.segments.len() != 4 {
        return false;
    }
    let mut index: usize = 0;
    while index < 4
        invariant
            index <= 4,
            path.segments@.len() == 4,
            *attribute == Attribute::Path(*path),
            !is_bare_kind(kind, *path),
            forall|i: int| 0 <= i < index ==> !(#[trigger] path.segments@[i]).has_arguments,
        decreases 4 - index,
    {
        if path.segments[index].has_arguments {
            return false;
        }
        index = index + 1;
    }
    let root = path.segments[0].ident.as_str();
    (same_text(root, "core") || same_text(root, "std")) && same_text(
        path.segments[1].ident.as_str(),
        "prelude",
    ) && same_text(path.segments[3].ident.as_str(), name)
}

/// Some attribute of `attributes` is the harness attribute of `kind`.
pub open spec fn holds_kind(kind: Kind, attributes: Seq<Attribute>) -> bool {
    exists|i: int| 0 <= i < attributes.len() && names_kind(kind, #[trigger] attributes[i])
}

/// Check whether the function carries the harness attribute of `kind`
/// among its `attributes`.
pub fn has_attribute_kind(kind: Kind, attributes: &Vec<Attribute>) -> (has_kind: bool)
    ensures
        has_kind == holds_kind(kind, attributes@),
{
    let mut index: usize = 0;
    while index < attributes.len()
        invariant
            index <= attributes.len(),
            forall|i: int| 0 <= i < index ==> !names_kind(kind, #[trigger] attributes@[i]),
        decreases attributes.len() - index,
    {
        if is_attribute_kind(kind, &attributes[index]) {
            return true;
        }
        index = index + 1;
    }
    false
}

/// One parameter of a function, as far as its form goes.
#[derive(Clone, Copy, Debug, PartialEq, Eq, Structural)]
pub enum Parameter {
    /// The receiver: `self` in one of its forms.
    Receiver,
    /// A pattern with a type; `by_reference` says whether the type is a
    /// reference.
    Typed { by_reference: bool },
}

/// The function takes a single parameter, which is a reference: the form of
/// a benchmark, with its `&mut Bencher`.
pub open spec fn fits_bench(parameters: Seq<Parameter>) -> bool {
    parameters.len() == 1 && parameters[0] == (Parameter::Typed { by_reference: true })
}

/// Check that the function has the signature of a benchmark.
pub fn parse_bench_sig(parameters: &Vec<Parameter>) -> (fits: bool)
    ensures
        fits == fits_bench(parameters@),
{
    if parameters.len() != 1 {
        return false;
    }
    match parameters[0] {
        Parameter::Typed { by_reference } => by_reference,
        Parameter::Receiver => false,
    }
}

/// Why an attribute refuses the function that it stands on.
#[derive(Clone, Copy, Debug, PartialEq, Eq, Structural)]
pub enum Refusal {
    /// The attribute was given arguments.
    Arguments,
    /// `fork` stands on a function that is no test.
    NoInnerTest,
    /// `bench` stands on a function that does not take a single reference.
    BenchSignature,
}

impl Refusal {
    /// The message with which the compiler reports the refusal.
    pub open spec fn text(self) -> Seq<char> {
        match self {
            Refusal::Arguments => "the attribute does not currently accept arguments"@,
            Refusal::NoInnerTest => "test_fork::fork requires an inner #[test] attribute"@,
            Refusal::BenchSignature =>
                "benchmark function has unexpected signature (expected single `&mut Bencher` argument)"@,
        }
    }

    /// The message with which the compiler reports the refusal.
    pub fn message(&self) -> (text: &'static str)
        ensures
            text@ == self.text(),
    {
        match self {
            Refusal::Arguments => "the attribute does not currently accept arguments",
            Refusal::NoInnerTest => "test_fork::fork requires an inner #[test] attribute",
            Refusal::BenchSignature =>
                "benchmark function has unexpected signature (expected single `&mut Bencher` argument)",
        }
    }
}

/// The attribute `test` on a function with `attributes`, where
/// `has_arguments` says whether the attribute was given any.
///
/// The function is wrapped unless the attribute has arguments. The answer
/// says whether the harness attribute has to be added: it has, unless the
/// function carries it already.
pub fn try_test(has_arguments: bool, attributes: &Vec<Attribute>) -> (add_inner: Result<
    bool,
    Refusal,
>)
    ensures
        has_arguments ==> add_inner == Err::<bool, Refusal>(Refusal::Arguments),
        !has_arguments ==> add_inner == Ok::<bool, Refusal>(
            !holds_kind(Kind::Test, attributes@),
        ),
{
    if has_arguments {
        Err(Refusal::Arguments)
    } else {
        Ok(!has_attribute_kind(Kind::Test, attributes))
    }
}

/// The attribute `fork` on a function with `attributes`.
///
/// The function is wrapped, and nothing is added to it, where it is a test
/// already and the attribute has no arguments.
pub fn try_fork(has_arguments: bool, attributes: &Vec<Attribute>) -> (outcome: Result<
    (),
    Refusal,
>)
    ensures
        !holds_kind(Kind::Test, attributes@) ==> outcome == Err::<(), Refusal>(
            Refusal::NoInnerTest,
        ),
        holds_kind(Kind::Test, attributes@) && has_arguments ==> outcome == Err::<(), Refusal>(
            Refusal::Arguments,
        ),
        holds_kind(Kind::Test, attributes@) && !has_arguments ==> outcome == Ok::<(), Refusal>(()),
{
    if !has_attribute_kind(Kind::Test, attributes) {
        Err(Refusal::NoInnerTest)
    } else if has_arguments {
        Err(Refusal::Arguments)
    } else {
        Ok(())
    }
}

/// The attribute `bench` on a function with `attributes` and `parameters`.
///
/// The function is wrapped where the attribute has no arguments and the
/// function has the signature of a benchmark. The answer says whether the
/// harness attribute has to be added.
pub fn try_bench(
    has_arguments: bool,
    attributes: &Vec<Attribute>,
    parameters: &Vec<Parameter>,
) -> (add_inner: Result<bool, Refusal>)
    ensures
        has_arguments ==> add_inner == Err::<bool, Refusal>(Refusal::Arguments),
        !has_arguments && !fits_bench(parameters@) ==> add_inner == Err::<bool, Refusal>(
            Refusal::BenchSignature,
        ),
        !has_arguments && fits_bench(parameters@) ==> add_inner == Ok::<bool, Refusal>(
            !holds_kind(Kind::Bench, attributes@),
        ),
{
    if has_arguments {
        Err(Refusal::Arguments)
    } else if !parse_bench_sig(parameters) {
        Err(Refusal::BenchSignature)
    } else {
        Ok(!has_attribute_kind(Kind::Bench, attributes))
    }
}

} // verus!
