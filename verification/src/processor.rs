//! Connection processors: what each is called. The processing itself works
//! on network connections and belongs to the caller.
use vstd::prelude::*;

verus! {

/// Something that processes connections, known by a name.
pub trait ConnectionProcessor {
    /// The processor's name; "DefaultProcessor" unless a processor names
    /// itself.
    fn name(&self) -> (r: &str)
        default_ensures
            r@ == "DefaultProcessor"@,
    {
        "DefaultProcessor"
    }
}

/// The processor that echoes back what it receives.
pub struct EchoProcessor;

impl ConnectionProcessor for EchoProcessor {
    fn name(&self) -> (r: &str)
        ensures
            r@ == "EchoProcessor"@,
    {
        "EchoProcessor"
    }
}

/// A processor with a name of the user's choice.
pub struct CustomProcessor {
    name: String,
}

impl CustomProcessor {
    /// The name given at creation.
    pub closed spec fn name_view(&self) -> Seq<char> {
        self.name@
    }

    /// A processor called `name`.
    pub fn new(name: &str) -> (r: Self)
        ensures
            r.name_view() == name@,
    {
        CustomProcessor { name: name.to_string() }
    }
}

impl ConnectionProcessor for CustomProcessor {
    fn name(&self) -> (r: &str)
        ensures
            r@ == self.name_view(),
    {
        self.name.as_str()
    }
}

} // verus!
