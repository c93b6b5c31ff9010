use vstd::prelude::*;

verus! {

/// A redirect target: the absolute URL a user agent is to be sent to,
/// carried as an opaque string.
pub struct Redirect {
    to: String,
}

impl View for Redirect {
    type V = Seq<char>;

    closed spec fn view(&self) -> Seq<char> {
        self.to@
    }
}

impl Redirect {
    /// Wrap a URL as a redirect target.
    pub fn new(to: String) -> (r: Self)
        ensures
            r@ == to@,
    {
        Redirect { to }
    }

    /// The URL this redirect points at.
    pub fn target(&self) -> (r: &String)
        ensures
            r@ == self@,
    {
        &self.to
    }
}

} // verus!
