use vstd::prelude::*;

verus! {

/// One candidate address taken from a forwarding header.
///
/// `host` is the address text without brackets or port; it is the text
/// that trusted-proxy prefixes are matched against.
pub struct Address {
    pub host: Vec<char>,
    pub port: Option<u16>,
    pub routable: bool,
}

/// Mathematical model of an [`Address`].
pub struct AddressView {
    pub host: Seq<char>,
    pub port: Option<u16>,
    pub routable: bool,
}

impl View for Address {
    type V = AddressView;

    open spec fn view(&self) -> AddressView {
        AddressView { host: self.host@, port: self.port, routable: self.routable }
    }
}

impl Address {
    /// A copy of this address with the same model.
    pub fn duplicate(&self) -> (r: Address)
        ensures
            r@ == self@,
    {
        Address { host: self.host.clone(), port: self.port, routable: self.routable }
    }
}

} // verus!
