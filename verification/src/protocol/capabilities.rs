//! What the peers tell of themselves in the handshake.

use super::codec::with_optional;
use super::message::opt_view;
use crate::json::{Json, JsonView};
use vstd::prelude::*;

verus! {

/// Whether a peer tells when its list of roots changes.
#[derive(Debug, Clone, Copy, PartialEq, Eq, Structural)]
pub struct RootCapability {
    pub list_changed: bool,
}

/// Whether a server lets clients subscribe to resources, and tells when its
/// list of resources changes.
#[derive(Debug, Clone, Copy, PartialEq, Eq, Structural)]
pub struct ResourceCapability {
    pub subscribe: bool,
    pub list_changed: bool,
}

/// Whether a peer tells when the list of a feature's items changes.
#[derive(Debug, Clone, Copy, PartialEq, Eq, Structural)]
pub struct FeatureCapability {
    pub list_changed: bool,
}

/// The name and version of an implementation.
#[derive(Debug, Clone, PartialEq, Eq)]
pub struct ImplementationInfo {
    pub name: String,
    pub version: String,
}

/// What a client is able to do.
#[derive(Debug, Clone, PartialEq, Eq)]
pub struct ClientCapabilities {
    /// Roots, where the client offers any.
    pub roots: Option<RootCapability>,
    /// Sampling, where the client offers it.
    pub sampling: Option<Json>,
    /// Features that are not yet part of the protocol.
    pub experimental: Option<Json>,
}

/// What a server is able to do.
#[derive(Debug, Clone, PartialEq, Eq)]
pub struct ServerCapabilities {
    /// Prompts, where the server offers any.
    pub prompts: Option<FeatureCapability>,
    /// Resources, where the server offers any.
    pub resources: Option<ResourceCapability>,
    /// Tools, where the server offers any.
    pub tools: Option<FeatureCapability>,
    /// Logging, where the server offers it.
    pub logging: Option<Json>,
    /// Features that are not yet part of the protocol.
    pub experimental: Option<Json>,
}

/// The object with the one flag `list_changed`.
pub open spec fn list_changed_json(flag: bool) -> JsonView {
    JsonView::Object(Seq::empty().push(("list_changed"@, JsonView::Bool(flag))))
}

/// The object with the flags `subscribe` and `list_changed`.
pub open spec fn resource_json(c: ResourceCapability) -> JsonView {
    JsonView::Object(
        Seq::empty().push(("subscribe"@, JsonView::Bool(c.subscribe))).push(
            ("list_changed"@, JsonView::Bool(c.list_changed)),
        ),
    )
}

/// The object with the members `name` and `version`.
pub open spec fn implementation_json(name: Seq<char>, version: Seq<char>) -> JsonView {
    JsonView::Object(
        Seq::empty().push(("name"@, JsonView::Str(name))).push(("version"@, JsonView::Str(version))),
    )
}

/// The object that stands for a client's capabilities: a member for each
/// capability that is present.
pub open spec fn client_capabilities_json(
    roots: Option<RootCapability>,
    sampling: Option<JsonView>,
    experimental: Option<JsonView>,
) -> JsonView {
    JsonView::Object(
        with_optional(
            with_optional(
                with_optional(
                    Seq::empty(),
                    "roots"@,
                    match roots {
                        Some(r) => Some(list_changed_json(r.list_changed)),
                        None => None,
                    },
                ),
                "sampling"@,
                sampling,
            ),
            "experimental"@,
            experimental,
        ),
    )
}

/// The JSON form of an optional feature capability.
pub open spec fn opt_feature_json(c: Option<FeatureCapability>) -> Option<JsonView> {
    match c {
        Some(f) => Some(list_changed_json(f.list_changed)),
        None => None,
    }
}

/// The object that stands for a server's capabilities: a member for each
/// capability that is present.
pub open spec fn server_capabilities_json(
    prompts: Option<FeatureCapability>,
    resources: Option<ResourceCapability>,
    tools: Option<FeatureCapability>,
    logging: Option<JsonView>,
    experimental: Option<JsonView>,
) -> JsonView {
    JsonView::Object(
        with_optional(
            with_optional(
                with_optional(
                    with_optional(
                        with_optional(Seq::empty(), "prompts"@, opt_feature_json(prompts)),
                        "resources"@,
                        match resources {
                            Some(r) => Some(resource_json(r)),
                            None => None,
                        },
                    ),
                    "tools"@,
                    opt_feature_json(tools),
                ),
                "logging"@,
                logging,
            ),
            "experimental"@,
            experimental,
        ),
    )
}

impl RootCapability {
    /// The object that stands for the capability.
    pub fn to_json(&self) -> (r: Json)
        ensures
            r@ == list_changed_json(self.list_changed),
    {
        let mut members: Vec<(String, Json)> = Vec::new();
        members.push(("list_changed".to_owned(), Json::Bool(self.list_changed)));
        let r = Json::object(members);
        assert(r@->Object_0 =~= list_changed_json(self.list_changed)->Object_0);
        r
    }
}

impl FeatureCapability {
    /// The object that stands for the capability.
    pub fn to_json(&self) -> (r: Json)
        ensures
            r@ == list_changed_json(self.list_changed),
    {
        let mut members: Vec<(String, Json)> = Vec::new();
        members.push(("list_changed".to_owned(), Json::Bool(self.list_changed)));
        let r = Json::object(members);
        assert(r@->Object_0 =~= list_changed_json(self.list_changed)->Object_0);
        r
    }
}

impl ResourceCapability {
    /// The object that stands for the capability.
    pub fn to_json(&self) -> (r: Json)
        ensures
            r@ == resource_json(*self),
    {
        let mut members: Vec<(String, Json)> = Vec::new();
        members.push(("subscribe".to_owned(), Json::Bool(self.subscribe)));
        members.push(("list_changed".to_owned(), Json::Bool(self.list_changed)));
        let r = Json::object(members);
        assert(r@->Object_0 =~= resource_json(*self)->Object_0);
        r
    }
}

impl ImplementationInfo {
    /// The object that stands for the implementation.
    pub fn to_json(&self) -> (r: Json)
        ensures
            r@ == implementation_json(self.name@, self.version@),
    {
        let mut members: Vec<(String, Json)> = Vec::new();
        members.push(("name".to_owned(), Json::Str(self.name.clone())));
        members.push(("version".to_owned(), Json::Str(self.version.clone())));
        let r = Json::object(members);
        assert(r@->Object_0 =~= implementation_json(self.name@, self.version@)->Object_0);
        r
    }

    /// The implementation that a JSON value stands for: an object with the
    /// strings `name` and `version`.
    pub fn from_json(value: &Json) -> (r: Option<ImplementationInfo>)
        ensures
            match (value@.text_member("name"@), value@.text_member("version"@)) {
                (Some(n), Some(v)) => r matches Some(i) && i.name@ == n && i.version@ == v,
                _ => r is None,
            },
    {
        let name = match value.get_str("name") {
            Some(n) => n.clone(),
            None => {
                return None;
            },
        };
        let version = match value.get_str("version") {
            Some(v) => v.clone(),
            None => {
                return None;
            },
        };
        Some(ImplementationInfo { name, version })
    }
}

impl Default for ClientCapabilities {
    fn default() -> (r: ClientCapabilities)
        ensures
            r.roots is None,
            r.sampling is None,
            r.experimental is None,
    {
        ClientCapabilities { roots: None, sampling: None, experimental: None }
    }
}

impl ClientCapabilities {
    /// The object that stands for the capabilities.
    pub fn to_json(&self) -> (r: Json)
        ensures
            r@ == client_capabilities_json(
                self.roots,
                opt_view(self.sampling),
                opt_view(self.experimental),
            ),
    {
        let mut members: Vec<(String, Json)> = Vec::new();
        match &self.roots {
            Some(c) => {
                members.push(("roots".to_owned(), c.to_json()));
            },
            None => {},
        }
        match &self.sampling {
            Some(c) => {
                members.push(("sampling".to_owned(), c.clone()));
            },
            None => {},
        }
        match &self.experimental {
            Some(c) => {
                members.push(("experimental".to_owned(), c.clone()));
            },
            None => {},
        }
        let r = Json::object(members);
        assert(r@->Object_0 =~= client_capabilities_json(
            self.roots,
            opt_view(self.sampling),
            opt_view(self.experimental),
        )->Object_0);
        r
    }
}

impl Default for ServerCapabilities {
    fn default() -> (r: ServerCapabilities)
        ensures
            r.prompts is None,
            r.resources is None,
            r.tools is None,
            r.logging is None,
            r.experimental is None,
    {
        ServerCapabilities {
            prompts: None,
            resources: None,
            tools: None,
            logging: None,
            experimental: None,
        }
    }
}

impl ServerCapabilities {
    /// The object that stands for the capabilities.
    pub fn to_json(&self) -> (r: Json)
        ensures
            r@ == server_capabilities_json(
                self.prompts,
                self.resources,
                self.tools,
                opt_view(self.logging),
                opt_view(self.experimental),
            ),
    {
        let mut members: Vec<(String, Json)> = Vec::new();
        match &self.prompts {
            Some(c) => {
                members.push(("prompts".to_owned(), c.to_json()));
            },
            None => {},
        }
        match &self.resources {
            Some(c) => {
                members.push(("resources".to_owned(), c.to_json()));
            },
            None => {},
        }
        match &self.tools {
            Some(c) => {
                members.push(("tools".to_owned(), c.to_json()));
            },
            None => {},
        }
        match &self.logging {
            Some(c) => {
                members.push(("logging".to_owned(), c.clone()));
            },
            None => {},
        }
        match &self.experimental {
            Some(c) => {
                members.push(("experimental".to_owned(), c.clone()));
            },
            None => {},
        }
        let r = Json::object(members);
        assert(r@->Object_0 =~= server_capabilities_json(
            self.prompts,
            self.resources,
            self.tools,
            opt_view(self.logging),
            opt_view(self.experimental),
        )->Object_0);
        r
    }
}

} // verus!
