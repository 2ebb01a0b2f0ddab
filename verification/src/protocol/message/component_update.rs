use vstd::prelude::*;

use super::state::{empty_json, is_object, read_empty, write_empty};
use super::{ipc_call_headers, Message};
use crate::error::{Error, ErrorKind};
use crate::protocol::identifier::{text_of_uuid, uuid_of_text, Uuid};
use crate::protocol::json::{
    decimal, find_member, is_null, json_bool, json_null, json_object, json_quote, json_string,
    json_u64, member, push_quoted, push_text, read_bool, object_members, string_value, read_u64,
    utf8, write_decimal, Member,
};

verus! {

/// The shape of the payload of a `DeferComponentUpdate` request.
pub const DEFER_COMPONENT_UPDATE_REQUEST: &'static str =
    "aws.greengrass#DeferComponentUpdateRequest";

/// The name of the `DeferComponentUpdate` operation.
pub const DEFER_COMPONENT_UPDATE: &'static str = "aws.greengrass#DeferComponentUpdate";

/// The shape of the payload of a `SubscribeToComponentUpdates` request.
pub const SUBSCRIBE_TO_COMPONENT_UPDATES_REQUEST: &'static str =
    "aws.greengrass#SubscribeToComponentUpdatesRequest";

/// The name of the `SubscribeToComponentUpdates` operation.
pub const SUBSCRIBE_TO_COMPONENT_UPDATES: &'static str =
    "aws.greengrass#SubscribeToComponentUpdates";

/// The number of milliseconds to defer a component update.
#[derive(Debug, PartialEq, Eq, Copy, Clone, Structural)]
pub enum RecheckAfterMs {
    /// Do not defer the component update.
    DontDefer,
    /// Defer the component update for the specified number of milliseconds, at least one.
    Defer(u64),
}

/// A request to defer a component update.
#[derive(Debug, PartialEq, Eq)]
pub struct DeferComponentUpdateRequest {
    deployment_id: Uuid,
    message: Option<String>,
    recheck_after_ms: RecheckAfterMs,
}

/// A response to a `DeferComponentUpdateRequest`.
#[derive(Debug, PartialEq, Eq)]
pub struct DeferComponentUpdateResponse {}

/// A request to be told of component updates.
#[derive(Debug, PartialEq, Eq)]
pub struct ComponentUpdateSubscriptionRequest {}

/// A response to a `ComponentUpdateSubscriptionRequest`.
#[derive(Debug, PartialEq, Eq)]
pub struct ComponentUpdateSubscriptionResponse {
    pre_update_event: Option<PreComponentUpdateEvent>,
    post_update_event: Option<PostComponentUpdateEvent>,
}

/// An event that occurs before a component update.
#[derive(Debug, PartialEq, Eq)]
pub struct PreComponentUpdateEvent {
    deployment_id: Uuid,
    is_ggc_restarting: bool,
}

/// An event that occurs after a component update.
#[derive(Debug, PartialEq, Eq)]
pub struct PostComponentUpdateEvent {
    deployment_id: Uuid,
}

/// What a [`DeferComponentUpdateRequest`] holds.
pub struct DeferView {
    pub deployment_id: Seq<u8>,
    pub message: Option<Seq<char>>,
    pub recheck_after_ms: RecheckAfterMs,
}

/// What a [`PreComponentUpdateEvent`] holds.
pub struct PreEventView {
    pub deployment_id: Seq<u8>,
    pub is_ggc_restarting: bool,
}

/// What a [`ComponentUpdateSubscriptionResponse`] holds: the event before an update, and the
/// deployment of the event after one.
pub struct UpdatesView {
    pub pre_update_event: Option<PreEventView>,
    pub post_update_event: Option<Seq<u8>>,
}

impl RecheckAfterMs {
    /// The number that stands for the time in a payload: 0 for no deferral.
    pub open spec fn spec_millis(self) -> u64 {
        match self {
            RecheckAfterMs::DontDefer => 0,
            RecheckAfterMs::Defer(ms) => ms,
        }
    }

    /// The time that the number `ms` stands for: no deferral for 0.
    pub open spec fn of_millis(ms: u64) -> RecheckAfterMs {
        if ms == 0 {
            RecheckAfterMs::DontDefer
        } else {
            RecheckAfterMs::Defer(ms)
        }
    }

    /// Whether the time is as it should be: a deferral is of one millisecond at least.
    pub open spec fn well_formed(self) -> bool {
        self matches RecheckAfterMs::Defer(ms) ==> ms >= 1
    }

    /// The number that stands for the time in a payload.
    #[verifier::when_used_as_spec(spec_millis)]
    pub fn millis(self) -> (r: u64)
        ensures
            r == self.spec_millis(),
    {
        match self {
            RecheckAfterMs::DontDefer => 0,
            RecheckAfterMs::Defer(ms) => ms,
        }
    }

    /// The time that the number `ms` stands for.
    pub fn from_millis(ms: u64) -> (r: RecheckAfterMs)
        ensures
            r == RecheckAfterMs::of_millis(ms),
            r.well_formed(),
    {
        if ms == 0 {
            RecheckAfterMs::DontDefer
        } else {
            RecheckAfterMs::Defer(ms)
        }
    }
}

/// A time and its number determine each other.
pub proof fn lemma_recheck_millis(time: RecheckAfterMs, ms: u64)
    ensures
        time.well_formed() ==> RecheckAfterMs::of_millis(time.spec_millis()) == time,
        RecheckAfterMs::of_millis(ms).spec_millis() == ms,
{
}

/// The JSON string that stands for an identifier.
pub open spec fn uuid_json(id: Seq<u8>) -> Seq<u8> {
    json_quote(text_of_uuid(id))
}

/// The identifier that the JSON string `text` stands for.
pub open spec fn uuid_of_json(text: Seq<u8>) -> Option<Seq<u8>> {
    match json_string(text) {
        Some(t) => uuid_of_text(t),
        None => None,
    }
}

/// The value of the member called `name`, where there is one and it is not `null`.
pub open spec fn optional_member(members: Seq<Member>, name: Seq<char>) -> Option<Seq<u8>> {
    match member(members, name) {
        Some(value) => if json_null(value) {
            None
        } else {
            Some(value)
        },
        None => None,
    }
}

/// The payload that stands for a request to defer an update.
pub open spec fn defer_json(v: DeferView) -> Seq<u8> {
    utf8("{\"deploymentId\":") + uuid_json(v.deployment_id) + (match v.message {
        Some(m) => utf8(",\"message\":") + json_quote(m),
        None => Seq::empty(),
    }) + utf8(",\"recheckAfterMs\":") + decimal(v.recheck_after_ms.spec_millis() as nat) + utf8(
        "}",
    )
}

/// The request that the payload `text` stands for: `text` is an object whose member
/// `deploymentId` is an identifier, whose member `message`, where it has one, is a string, and
/// whose member `recheckAfterMs` is a number.
pub open spec fn defer_of_json(text: Seq<u8>) -> Option<DeferView> {
    match json_object(text) {
        Some(members) => match (
            member(members, "deploymentId"@),
            member(members, "recheckAfterMs"@),
        ) {
            (Some(id), Some(ms)) => match (uuid_of_json(id), json_u64(ms)) {
                (Some(deployment_id), Some(ms)) => {
                    let recheck_after_ms = RecheckAfterMs::of_millis(ms);
                    match optional_member(members, "message"@) {
                        None => Some(DeferView { deployment_id, message: None, recheck_after_ms }),
                        Some(m) => match json_string(m) {
                            Some(message) => Some(
                                DeferView {
                                    deployment_id,
                                    message: Some(message),
                                    recheck_after_ms,
                                },
                            ),
                            None => None,
                        },
                    }
                },
                _ => None,
            },
            _ => None,
        },
        None => None,
    }
}

/// The payload that stands for an event before an update.
pub open spec fn pre_event_json(v: PreEventView) -> Seq<u8> {
    utf8("{\"deploymentId\":") + uuid_json(v.deployment_id) + utf8(",\"isGgcRestarting\":") + (
    if v.is_ggc_restarting {
        utf8("true")
    } else {
        utf8("false")
    }) + utf8("}")
}

/// The event before an update that the payload `text` stands for: `text` is an object whose
/// member `deploymentId` is an identifier and whose member `isGgcRestarting` is a truth value.
pub open spec fn pre_event_of_json(text: Seq<u8>) -> Option<PreEventView> {
    match json_object(text) {
        Some(members) => match (
            member(members, "deploymentId"@),
            member(members, "isGgcRestarting"@),
        ) {
            (Some(id), Some(flag)) => match (uuid_of_json(id), json_bool(flag)) {
                (Some(deployment_id), Some(is_ggc_restarting)) => Some(
                    PreEventView { deployment_id, is_ggc_restarting },
                ),
                _ => None,
            },
            _ => None,
        },
        None => None,
    }
}

/// The payload that stands for an event after the update of the deployment `id`.
pub open spec fn post_event_json(id: Seq<u8>) -> Seq<u8> {
    utf8("{\"deploymentId\":") + uuid_json(id) + utf8("}")
}

/// The deployment of the event after an update that the payload `text` stands for: `text` is
/// an object whose member `deploymentId` is an identifier.
pub open spec fn post_event_of_json(text: Seq<u8>) -> Option<Seq<u8>> {
    match json_object(text) {
        Some(members) => match member(members, "deploymentId"@) {
            Some(id) => uuid_of_json(id),
            None => None,
        },
        None => None,
    }
}

/// The payload that stands for what a subscription says: each event that it holds, under its
/// name.
pub open spec fn updates_json(v: UpdatesView) -> Seq<u8> {
    utf8("{") + (match v.pre_update_event {
        Some(e) => utf8("\"preUpdateEvent\":") + pre_event_json(e),
        None => Seq::empty(),
    }) + (if v.pre_update_event is Some && v.post_update_event is Some {
        utf8(",")
    } else {
        Seq::empty()
    }) + (match v.post_update_event {
        Some(id) => utf8("\"postUpdateEvent\":") + post_event_json(id),
        None => Seq::empty(),
    }) + utf8("}")
}

/// What the payload `text` of a subscription says: `text` is an object; its member
/// `preUpdateEvent`, where it has one that is not `null`, is an event before an update, and its
/// member `postUpdateEvent`, where it has one that is not `null`, is an event after one.
pub open spec fn updates_of_json(text: Seq<u8>) -> Option<UpdatesView> {
    match json_object(text) {
        Some(members) => {
            let pre = optional_member(members, "preUpdateEvent"@);
            let post = optional_member(members, "postUpdateEvent"@);
            if pre matches Some(p) && pre_event_of_json(p) is None {
                None
            } else if post matches Some(p) && post_event_of_json(p) is None {
                None
            } else {
                Some(
                    UpdatesView {
                        pre_update_event: match pre {
                            Some(p) => pre_event_of_json(p),
                            None => None,
                        },
                        post_update_event: match post {
                            Some(p) => post_event_of_json(p),
                            None => None,
                        },
                    },
                )
            }
        },
        None => None,
    }
}

/// Appends the JSON string that stands for an identifier.
fn push_uuid(out: &mut Vec<u8>, id: &Uuid)
    ensures
        final(out)@ == old(out)@ + uuid_json(id@),
{
    let text = id.to_string();
    push_quoted(out, text.as_str());
}

/// The identifier that the JSON string `text` stands for.
fn read_uuid(text: &[u8]) -> (r: Option<Uuid>)
    ensures
        match uuid_of_json(text@) {
            Some(id) => r matches Some(x) && x@ == id,
            None => r is None,
        },
{
    match string_value(text) {
        Some(t) => Uuid::parse_str(t.as_str()),
        None => None,
    }
}

/// The value of the member called `name`, where there is one and it is not `null`.
fn find_optional<'a>(members: &'a Vec<(String, Vec<u8>)>, name: &str) -> (r: Option<&'a [u8]>)
    ensures
        match optional_member(crate::protocol::json::members_view(members@), name@) {
            Some(v) => r matches Some(x) && x@ == v,
            None => r is None,
        },
{
    match find_member(members, name) {
        Some(value) => if is_null(value) {
            None
        } else {
            Some(value)
        },
        None => None,
    }
}

impl View for DeferComponentUpdateRequest {
    type V = DeferView;

    closed spec fn view(&self) -> DeferView {
        DeferView {
            deployment_id: self.deployment_id@,
            message: match self.message {
                Some(m) => Some(m@),
                None => None,
            },
            recheck_after_ms: self.recheck_after_ms,
        }
    }
}

impl DeferComponentUpdateRequest {
    /// Creates a new `DeferComponentUpdateRequest`.
    pub fn new(
        stream_id: i32,
        deployment_id: Uuid,
        component_name: Option<&str>,
        recheck_after_ms: RecheckAfterMs,
    ) -> (r: Message)
        ensures
            r@.headers == ipc_call_headers(
                DEFER_COMPONENT_UPDATE_REQUEST@,
                DEFER_COMPONENT_UPDATE@,
                stream_id,
            ),
            r@.headers.consistent(),
            r@.payload == Some(
                defer_json(
                    DeferView {
                        deployment_id: deployment_id@,
                        message: match component_name {
                            Some(m) => Some(m@),
                            None => None,
                        },
                        recheck_after_ms,
                    },
                ),
            ),
    {
        let payload = DeferComponentUpdateRequest {
            deployment_id,
            message: match component_name {
                Some(m) => Some(m.to_owned()),
                None => None,
            },
            recheck_after_ms,
        };
        Message::ipc_call(
            DEFER_COMPONENT_UPDATE_REQUEST,
            DEFER_COMPONENT_UPDATE,
            stream_id,
            Some(payload.to_json()),
        )
    }

    /// Returns the deployment ID parameter.
    pub fn deployment_id(&self) -> (r: Uuid)
        ensures
            r@ == self@.deployment_id,
    {
        self.deployment_id
    }

    /// Returns the component name parameter.
    pub fn component_name(&self) -> (r: Option<&str>)
        ensures
            match self@.message {
                Some(m) => r matches Some(x) && x@ == m,
                None => r is None,
            },
    {
        match &self.message {
            Some(m) => Some(m.as_str()),
            None => None,
        }
    }

    /// Returns the recheck after milliseconds parameter.
    pub fn recheck_after_ms(&self) -> (r: RecheckAfterMs)
        ensures
            r == self@.recheck_after_ms,
    {
        self.recheck_after_ms
    }

    /// The payload that stands for the request.
    pub fn to_json(&self) -> (r: Vec<u8>)
        ensures
            r@ == defer_json(self@),
    {
        let mut out: Vec<u8> = Vec::new();
        push_text(&mut out, "{\"deploymentId\":");
        push_uuid(&mut out, &self.deployment_id);
        match &self.message {
            Some(m) => {
                push_text(&mut out, ",\"message\":");
                push_quoted(&mut out, m.as_str());
            },
            None => {},
        }
        push_text(&mut out, ",\"recheckAfterMs\":");
        write_decimal(self.recheck_after_ms.millis(), &mut out);
        push_text(&mut out, "}");
        assert(out@ =~= defer_json(self@));
        out
    }

    /// The request that the payload `text` stands for.
    pub fn from_json(text: &[u8]) -> (r: Result<DeferComponentUpdateRequest, Error>)
        ensures
            match defer_of_json(text@) {
                Some(v) => r matches Ok(x) && x@ == v,
                None => r matches Err(e) && e@ == ErrorKind::Protocol,
            },
    {
        let members = match object_members(text) {
            Some(members) => members,
            None => {
                return Err(Error::Protocol("Invalid payload".to_owned()));
            },
        };
        let id = match find_member(&members, "deploymentId") {
            Some(value) => read_uuid(value),
            None => None,
        };
        let ms = match find_member(&members, "recheckAfterMs") {
            Some(value) => read_u64(value),
            None => None,
        };
        let (deployment_id, ms) = match (id, ms) {
            (Some(id), Some(ms)) => (id, ms),
            _ => {
                return Err(Error::Protocol("Invalid payload".to_owned()));
            },
        };
        let message = match find_optional(&members, "message") {
            Some(value) => match string_value(value) {
                Some(m) => Some(m),
                None => {
                    return Err(Error::Protocol("Invalid payload".to_owned()));
                },
            },
            None => None,
        };
        Ok(
            DeferComponentUpdateRequest {
                deployment_id,
                message,
                recheck_after_ms: RecheckAfterMs::from_millis(ms),
            },
        )
    }
}

impl DeferComponentUpdateResponse {
    /// The payload that stands for the response.
    pub fn to_json(&self) -> (r: Vec<u8>)
        ensures
            r@ == empty_json(),
    {
        write_empty()
    }

    /// The response that the payload `text` stands for: `text` is an object.
    pub fn from_json(text: &[u8]) -> (r: Result<DeferComponentUpdateResponse, Error>)
        ensures
            r is Ok <==> is_object(text@),
            r matches Err(e) ==> e@ == ErrorKind::Protocol,
    {
        match read_empty(text) {
            Ok(()) => Ok(DeferComponentUpdateResponse {  }),
            Err(e) => Err(e),
        }
    }
}

impl ComponentUpdateSubscriptionRequest {
    /// Creates a new `ComponentUpdateSubscriptionRequest`.
    pub fn new(stream_id: i32) -> (r: Message)
        ensures
            r@.headers == ipc_call_headers(
                SUBSCRIBE_TO_COMPONENT_UPDATES_REQUEST@,
                SUBSCRIBE_TO_COMPONENT_UPDATES@,
                stream_id,
            ),
            r@.headers.consistent(),
            r@.payload is None,
    {
        Message::ipc_call(
            SUBSCRIBE_TO_COMPONENT_UPDATES_REQUEST,
            SUBSCRIBE_TO_COMPONENT_UPDATES,
            stream_id,
            None,
        )
    }

    /// The payload that stands for the request.
    pub fn to_json(&self) -> (r: Vec<u8>)
        ensures
            r@ == empty_json(),
    {
        write_empty()
    }

    /// The request that the payload `text` stands for: `text` is an object.
    pub fn from_json(text: &[u8]) -> (r: Result<ComponentUpdateSubscriptionRequest, Error>)
        ensures
            r is Ok <==> is_object(text@),
            r matches Err(e) ==> e@ == ErrorKind::Protocol,
    {
        match read_empty(text) {
            Ok(()) => Ok(ComponentUpdateSubscriptionRequest {  }),
            Err(e) => Err(e),
        }
    }
}

impl View for PreComponentUpdateEvent {
    type V = PreEventView;

    closed spec fn view(&self) -> PreEventView {
        PreEventView {
            deployment_id: self.deployment_id@,
            is_ggc_restarting: self.is_ggc_restarting,
        }
    }
}

impl PreComponentUpdateEvent {
    /// Creates a new `PreComponentUpdateEvent`.
    pub fn new(deployment_id: Uuid, is_ggc_restarting: bool) -> (r: PreComponentUpdateEvent)
        ensures
            r@ == (PreEventView { deployment_id: deployment_id@, is_ggc_restarting }),
    {
        PreComponentUpdateEvent { deployment_id, is_ggc_restarting }
    }

    /// the deployment ID parameter.
    pub fn deployment_id(&self) -> (r: Uuid)
        ensures
            r@ == self@.deployment_id,
    {
        self.deployment_id
    }

    /// Is the Nucleus restarting.
    pub fn is_ggc_restarting(&self) -> (r: bool)
        ensures
            r == self@.is_ggc_restarting,
    {
        self.is_ggc_restarting
    }

    /// Appends the payload that stands for the event.
    fn write_json(&self, out: &mut Vec<u8>)
        ensures
            final(out)@ == old(out)@ + pre_event_json(self@),
    {
        let ghost before = out@;
        push_text(out, "{\"deploymentId\":");
        push_uuid(out, &self.deployment_id);
        push_text(out, ",\"isGgcRestarting\":");
        if self.is_ggc_restarting {
            push_text(out, "true");
        } else {
            push_text(out, "false");
        }
        push_text(out, "}");
        assert(out@ =~= before + pre_event_json(self@));
    }

    /// The payload that stands for the event.
    pub fn to_json(&self) -> (r: Vec<u8>)
        ensures
            r@ == pre_event_json(self@),
    {
        let mut out: Vec<u8> = Vec::new();
        self.write_json(&mut out);
        assert(out@ =~= pre_event_json(self@));
        out
    }

    /// The event that the payload `text` stands for.
    pub fn from_json(text: &[u8]) -> (r: Result<PreComponentUpdateEvent, Error>)
        ensures
            match pre_event_of_json(text@) {
                Some(v) => r matches Ok(x) && x@ == v,
                None => r matches Err(e) && e@ == ErrorKind::Protocol,
            },
    {
        let members = match object_members(text) {
            Some(members) => members,
            None => {
                return Err(Error::Protocol("Invalid payload".to_owned()));
            },
        };
        let id = match find_member(&members, "deploymentId") {
            Some(value) => read_uuid(value),
            None => None,
        };
        let flag = match find_member(&members, "isGgcRestarting") {
            Some(value) => read_bool(value),
            None => None,
        };
        match (id, flag) {
            (Some(deployment_id), Some(is_ggc_restarting)) => Ok(
                PreComponentUpdateEvent { deployment_id, is_ggc_restarting },
            ),
            _ => Err(Error::Protocol("Invalid payload".to_owned())),
        }
    }
}

impl View for PostComponentUpdateEvent {
    type V = Seq<u8>;

    closed spec fn view(&self) -> Seq<u8> {
        self.deployment_id@
    }
}

impl PostComponentUpdateEvent {
    /// Creates a new `PostComponentUpdateEvent`.
    pub fn new(deployment_id: Uuid) -> (r: PostComponentUpdateEvent)
        ensures
            r@ == deployment_id@,
    {
        PostComponentUpdateEvent { deployment_id }
    }

    /// Returns the deployment ID parameter.
    pub fn deployment_id(&self) -> (r: Uuid)
        ensures
            r@ == self@,
    {
        self.deployment_id
    }

    /// Appends the payload that stands for the event.
    fn write_json(&self, out: &mut Vec<u8>)
        ensures
            final(out)@ == old(out)@ + post_event_json(self@),
    {
        let ghost before = out@;
        push_text(out, "{\"deploymentId\":");
        push_uuid(out, &self.deployment_id);
        push_text(out, "}");
        assert(out@ =~= before + post_event_json(self@));
    }

    /// The payload that stands for the event.
    pub fn to_json(&self) -> (r: Vec<u8>)
        ensures
            r@ == post_event_json(self@),
    {
        let mut out: Vec<u8> = Vec::new();
        self.write_json(&mut out);
        assert(out@ =~= post_event_json(self@));
        out
    }

    /// The event that the payload `text` stands for.
    pub fn from_json(text: &[u8]) -> (r: Result<PostComponentUpdateEvent, Error>)
        ensures
            match post_event_of_json(text@) {
                Some(v) => r matches Ok(x) && x@ == v,
                None => r matches Err(e) && e@ == ErrorKind::Protocol,
            },
    {
        let members = match object_members(text) {
            Some(members) => members,
            None => {
                return Err(Error::Protocol("Invalid payload".to_owned()));
            },
        };
        let id = match find_member(&members, "deploymentId") {
            Some(value) => read_uuid(value),
            None => None,
        };
        match id {
            Some(deployment_id) => Ok(PostComponentUpdateEvent { deployment_id }),
            None => Err(Error::Protocol("Invalid payload".to_owned())),
        }
    }
}

impl View for ComponentUpdateSubscriptionResponse {
    type V = UpdatesView;

    closed spec fn view(&self) -> UpdatesView {
        UpdatesView {
            pre_update_event: match self.pre_update_event {
                Some(e) => Some(e@),
                None => None,
            },
            post_update_event: match self.post_update_event {
                Some(e) => Some(e@),
                None => None,
            },
        }
    }
}

impl ComponentUpdateSubscriptionResponse {
    /// Creates a new `ComponentUpdateSubscriptionResponse`.
    pub fn new(
        pre_update_event: Option<PreComponentUpdateEvent>,
        post_update_event: Option<PostComponentUpdateEvent>,
    ) -> (r: ComponentUpdateSubscriptionResponse)
        ensures
            r@ == (UpdatesView {
                pre_update_event: match pre_update_event {
                    Some(e) => Some(e@),
                    None => None,
                },
                post_update_event: match post_update_event {
                    Some(e) => Some(e@),
                    None => None,
                },
            }),
    {
        ComponentUpdateSubscriptionResponse { pre_update_event, post_update_event }
    }

    /// the pre-update event.
    pub fn pre_update_event(&self) -> (r: Option<&PreComponentUpdateEvent>)
        ensures
            match self@.pre_update_event {
                Some(e) => r matches Some(x) && x@ == e,
                None => r is None,
            },
    {
        self.pre_update_event.as_ref()
    }

    /// the post-update event.
    pub fn post_update_event(&self) -> (r: Option<&PostComponentUpdateEvent>)
        ensures
            match self@.post_update_event {
                Some(e) => r matches Some(x) && x@ == e,
                None => r is None,
            },
    {
        self.post_update_event.as_ref()
    }

    /// The payload that stands for the response.
    pub fn to_json(&self) -> (r: Vec<u8>)
        ensures
            r@ == updates_json(self@),
    {
        let mut out: Vec<u8> = Vec::new();
        push_text(&mut out, "{");
        match &self.pre_update_event {
            Some(e) => {
                push_text(&mut out, "\"preUpdateEvent\":");
                e.write_json(&mut out);
            },
            None => {},
        }
        if self.pre_update_event.is_some() && self.post_update_event.is_some() {
            push_text(&mut out, ",");
        }
        match &self.post_update_event {
            Some(e) => {
                push_text(&mut out, "\"postUpdateEvent\":");
                e.write_json(&mut out);
            },
            None => {},
        }
        push_text(&mut out, "}");
        assert(out@ =~= updates_json(self@));
        out
    }

    /// The response that the payload `text` stands for.
    pub fn from_json(text: &[u8]) -> (r: Result<ComponentUpdateSubscriptionResponse, Error>)
        ensures
            match updates_of_json(text@) {
                Some(v) => r matches Ok(x) && x@ == v,
                None => r matches Err(e) && e@ == ErrorKind::Protocol,
            },
    {
        let members = match object_members(text) {
            Some(members) => members,
            None => {
                return Err(Error::Protocol("Invalid payload".to_owned()));
            },
        };
        let pre_update_event = match find_optional(&members, "preUpdateEvent") {
            Some(value) => match PreComponentUpdateEvent::from_json(value) {
                Ok(e) => Some(e),
                Err(e) => {
                    return Err(e);
                },
            },
            None => None,
        };
        let post_update_event = match find_optional(&members, "postUpdateEvent") {
            Some(value) => match PostComponentUpdateEvent::from_json(value) {
                Ok(e) => Some(e),
                Err(e) => {
                    return Err(e);
                },
            },
            None => None,
        };
        Ok(ComponentUpdateSubscriptionResponse { pre_update_event, post_update_event })
    }
}

} // verus!
