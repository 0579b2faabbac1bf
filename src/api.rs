use vstd::prelude::*;

use crate::location::Location;
use crate::request::{RequestUrl, RequestUrlView, StepView};
use crate::resource::Resource;

verus! {

/// The backend that the prebuilt locations are written for.
pub const DEFAULT_API_BASE: &'static str = "https://treehole.pku.edu.cn/api/";

/// Where resources of kind `R` are found, and with what credentials.
pub trait Endpoint<R: Resource> {
    /// The base URL of the backend.
    spec fn spec_base(&self) -> RequestUrlView;

    /// The URL of `location` on this endpoint.
    fn locate<L: Location<R>>(&self, location: &L) -> (r: RequestUrl)
        ensures
            r@ == location.spec_locate(self.spec_base()),
    ;

    /// The token that identifies the user to the backend.
    fn user_token(&self) -> &str;
}

/// The query steps that a list of fixed parameters adds, in order.
pub open spec fn param_steps(params: Seq<(&str, &str)>) -> Seq<StepView> {
    params.map_values(|p: (&str, &str)| StepView::Pair(p.0@, p.1@))
}

/// An entry point to the backend: a base URL with fixed query parameters,
/// and the user's access token.
pub struct API {
    endpoint: RequestUrl,
    user_token: String,
}

impl API {
    pub closed spec fn spec_endpoint(&self) -> RequestUrlView {
        self.endpoint@
    }

    pub closed spec fn spec_user_token(&self) -> Seq<char> {
        self.user_token@
    }

    /// An entry point at `base`, whose URLs carry the query parameters
    /// `params` in the order given. A base that is not a valid URL surfaces
    /// as a malformed URL when a request is built.
    pub fn new(base: &str, params: Option<&[(&str, &str)]>, user_token: &str) -> (r: API)
        ensures
            r.spec_endpoint().base == base@,
            r.spec_endpoint().steps == match params {
                Some(p) => param_steps(p@),
                None => Seq::<StepView>::empty(),
            },
            r.spec_user_token() == user_token@,
    {
        let mut endpoint = RequestUrl::new(base);
        if let Some(p) = params {
            let mut i: usize = 0;
            while i < p.len()
                invariant
                    i <= p@.len(),
                    endpoint@.base == base@,
                    endpoint@.steps == param_steps(p@.take(i as int)),
                decreases p@.len() - i,
            {
                let (name, value) = p[i];
                endpoint = endpoint.append_pair(name, value);
                i = i + 1;
                assert(endpoint@.steps =~= param_steps(p@.take(i as int)));
            }
            assert(p@.take(p@.len() as int) =~= p@);
        }
        API { endpoint, user_token: user_token.to_string() }
    }

    /// The token that identifies the user to the backend.
    pub fn user_token(&self) -> (r: &str)
        ensures
            r@ == self.spec_user_token(),
    {
        self.user_token.as_str()
    }
}

impl<R: Resource> Endpoint<R> for API {
    open spec fn spec_base(&self) -> RequestUrlView {
        self.spec_endpoint()
    }

    fn locate<L: Location<R>>(&self, location: &L) -> (r: RequestUrl) {
        location.locate(self.endpoint.duplicate())
    }

    fn user_token(&self) -> &str {
        self.user_token.as_str()
    }
}

} // verus!
