use vstd::prelude::*;

use crate::address::AddressView;
use crate::config::{client_ip, IpWare, IpWareView};
use crate::headers::HeaderView;

verus! {

/// How the middleware applies the resolved client address to a request.
#[derive(Clone, Copy, Debug, PartialEq, Eq, Structural)]
pub enum Behavior {
    /// The request's peer becomes the client address; the peer it arrived
    /// with is kept as the request's attachment.
    Overwrite,
    /// The request's peer is left as it is; the client address becomes the
    /// request's attachment.
    Extension,
}

/// An address and port, as a request's peer or attachment.
pub struct Endpoint {
    pub host: Vec<char>,
    pub port: u16,
}

impl View for Endpoint {
    type V = (Seq<char>, u16);

    open spec fn view(&self) -> (Seq<char>, u16) {
        (self.host@, self.port)
    }
}

/// The peer and the attachment of a request once the middleware has run.
pub struct Applied {
    pub peer: Option<Endpoint>,
    pub attachment: Option<Endpoint>,
}

pub open spec fn endpoint_view(e: Option<Endpoint>) -> Option<(Seq<char>, u16)> {
    match e {
        Some(x) => Some(x@),
        None => None,
    }
}

/// The client address that the middleware acts on: the resolved one,
/// unless it is untrusted and untrusted answers are not allowed.
pub open spec fn accepted(r: (Option<AddressView>, bool), allow_untrusted: bool) -> Option<
    AddressView,
> {
    if r.0.is_some() && (r.1 || allow_untrusted) {
        r.0
    } else {
        None
    }
}

/// Peer and attachment after the middleware, given the resolved result,
/// the policies, and the peer the request arrived with.
pub open spec fn applied(
    r: (Option<AddressView>, bool),
    behavior: Behavior,
    allow_untrusted: bool,
    peer: Option<(Seq<char>, u16)>,
) -> (Option<(Seq<char>, u16)>, Option<(Seq<char>, u16)>) {
    let port: u16 = match peer {
        Some(p) => p.1,
        None => 0,
    };
    let chosen = match accepted(r, allow_untrusted) {
        Some(a) => Some((a.host, port)),
        None => None,
    };
    match behavior {
        Behavior::Overwrite => (if chosen.is_some() { chosen } else { peer }, peer),
        Behavior::Extension => (peer, chosen),
    }
}

/// The client-IP middleware's configuration.
pub struct Middleware {
    ipware: IpWare,
    strict: bool,
    behavior: Behavior,
    allow_untrusted: bool,
}

/// Mathematical model of a [`Middleware`].
pub struct MiddlewareView {
    pub ipware: IpWareView,
    pub strict: bool,
    pub behavior: Behavior,
    pub allow_untrusted: bool,
}

impl View for Middleware {
    type V = MiddlewareView;

    closed spec fn view(&self) -> MiddlewareView {
        MiddlewareView {
            ipware: self.ipware@,
            strict: self.strict,
            behavior: self.behavior,
            allow_untrusted: self.allow_untrusted,
        }
    }
}

fn copy_endpoint(e: &Option<Endpoint>) -> (r: Option<Endpoint>)
    ensures
        endpoint_view(r) == endpoint_view(*e),
{
    match e {
        Some(x) => Some(Endpoint { host: x.host.clone(), port: x.port }),
        None => None,
    }
}

impl Middleware {
    /// Strict, overwriting, and ignoring untrusted answers.
    pub fn new(ipware: IpWare) -> (r: Middleware)
        ensures
            r@ == (MiddlewareView {
                ipware: ipware@,
                strict: true,
                behavior: Behavior::Overwrite,
                allow_untrusted: false,
            }),
    {
        Middleware { ipware, strict: true, behavior: Behavior::Overwrite, allow_untrusted: false }
    }

    /// Sets how the resolved address is applied.
    pub fn behavior(self, behavior: Behavior) -> (r: Middleware)
        ensures
            r@ == (MiddlewareView { behavior, ..self@ }),
    {
        Middleware { behavior, ..self }
    }

    /// Sets whether every non-client entry must be a trusted proxy.
    pub fn strict(self, strict: bool) -> (r: Middleware)
        ensures
            r@ == (MiddlewareView { strict, ..self@ }),
    {
        Middleware { strict, ..self }
    }

    /// Sets whether untrusted answers are applied too.
    pub fn allow_untrusted(self, allow_untrusted: bool) -> (r: Middleware)
        ensures
            r@ == (MiddlewareView { allow_untrusted, ..self@ }),
    {
        Middleware { allow_untrusted, ..self }
    }

    /// Resolves the client address of a request with these headers and
    /// incoming peer, and says what its peer and attachment become.
    pub fn apply(&self, headers: &HeaderView, peer: Option<Endpoint>) -> (r: Applied)
        ensures
            (endpoint_view(r.peer), endpoint_view(r.attachment)) == applied(
                client_ip(headers@, self@.ipware, self@.strict),
                self@.behavior,
                self@.allow_untrusted,
                endpoint_view(peer),
            ),
    {
        let (ip, trusted) = self.ipware.get_client_ip(headers, self.strict);
        let port: u16 = match &peer {
            Some(p) => p.port,
            None => 0,
        };
        let chosen = match ip {
            Some(a) => {
                if trusted || self.allow_untrusted {
                    Some(Endpoint { host: a.host, port })
                } else {
                    None
                }
            },
            None => None,
        };
        match self.behavior {
            Behavior::Overwrite => {
                let kept = copy_endpoint(&peer);
                if chosen.is_some() {
                    Applied { peer: chosen, attachment: kept }
                } else {
                    Applied { peer, attachment: kept }
                }
            },
            Behavior::Extension => Applied { peer, attachment: chosen },
        }
    }
}

} // verus!
