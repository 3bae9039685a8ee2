use std::collections::HashMap;
use vstd::prelude::*;
use vstd::string::*;

use crate::command::CommandEnvelope;
use crate::ids::{fresh_id, is_v4};
use crate::text::{hex_digit, id_nibble, text_eq, uuid_string, uuid_text};

verus! {

broadcast use vstd::std_specs::hash::group_hash_axioms;

/// Where the command service listens and the token a client must present.
#[derive(Debug)]
pub struct ServiceInfo {
    pub socket_path: String,
    pub capability_token: String,
}

pub struct ServiceInfoView {
    pub socket_path: Seq<char>,
    pub capability_token: Seq<char>,
}

impl View for ServiceInfo {
    type V = ServiceInfoView;

    open spec fn view(&self) -> ServiceInfoView {
        ServiceInfoView { socket_path: self.socket_path@, capability_token: self.capability_token@ }
    }
}

impl ServiceInfo {
    pub fn copy(&self) -> (r: ServiceInfo)
        ensures
            r@ == self@,
    {
        ServiceInfo { socket_path: self.socket_path.clone(), capability_token: self.capability_token.clone() }
    }
}

pub open spec fn byte_at(s: Seq<u8>, i: int) -> u8 {
    if 0 <= i < s.len() {
        s[i]
    } else {
        0
    }
}

/// Compares two byte strings, always reading every byte of the longer one.
pub fn constant_time_eq(left: &[u8], right: &[u8]) -> (r: bool)
    ensures
        r == (left@ == right@),
{
    let n = if left.len() > right.len() { left.len() } else { right.len() };
    let ll = left.len();
    let rl = right.len();
    let mut difference: usize = ll ^ rl;
    assert((difference == 0) == (ll == rl)) by (bit_vector)
        requires
            difference == ll ^ rl,
    ;
    let mut index: usize = 0;
    while index < n
        invariant
            0 <= index <= n,
            n == if left@.len() > right@.len() { left@.len() } else { right@.len() },
            (difference == 0) == (left@.len() == right@.len() && forall|j: int|
                0 <= j < index ==> byte_at(left@, j) == byte_at(right@, j)),
        decreases n - index,
    {
        let a: u8 = if index < left.len() { left[index] } else { 0 };
        let b: u8 = if index < right.len() { right[index] } else { 0 };
        assert(a == byte_at(left@, index as int) && b == byte_at(right@, index as int));
        let x: u8 = a ^ b;
        assert((x == 0) == (a == b)) by (bit_vector)
            requires
                x == a ^ b,
        ;
        let d = difference;
        let wide: usize = x as usize;
        difference = d | wide;
        assert((difference == 0) == (d == 0 && wide == 0)) by (bit_vector)
            requires
                difference == d | wide,
        ;
        index += 1;
    }
    if difference == 0 {
        assert forall|j: int| 0 <= j < left@.len() implies left@[j] == right@[j] by {
            assert(byte_at(left@, j) == byte_at(right@, j));
        }
        assert(left@ =~= right@);
    }
    difference == 0
}

/// The projects the app has opened this session, with their folders.
#[derive(Debug)]
pub struct CommandService {
    projects: HashMap<u128, String>,
    info: Option<ServiceInfo>,
}

pub open spec fn info_view(o: Option<ServiceInfo>) -> Option<ServiceInfoView> {
    match o {
        Some(i) => Some(i@),
        None => None,
    }
}

impl CommandService {
    /// The folders of the authorized projects.
    pub closed spec fn authorized(&self) -> Map<u128, Seq<char>> {
        self.projects@.map_values(|f: String| f@)
    }

    /// Where the service runs, once it runs.
    pub closed spec fn running(&self) -> Option<ServiceInfoView> {
        info_view(self.info)
    }

    /// A service with no authorized project that is not running yet.
    pub fn new() -> (s: CommandService)
        ensures
            s.authorized() == Map::<u128, Seq<char>>::empty(),
            s.running() is None,
    {
        let s = CommandService { projects: HashMap::new(), info: None };
        assert(s.authorized() =~= Map::<u128, Seq<char>>::empty());
        s
    }

    /// Authorizes a project for this session (its folder replaces any
    /// earlier one) and returns where the service runs, or nothing when it
    /// is not running yet and must be started.
    pub fn authorize(&mut self, project_id: u128, folder: String) -> (r: Option<ServiceInfo>)
        ensures
            final(self).authorized() == old(self).authorized().insert(project_id, folder@),
            final(self).running() == old(self).running(),
            info_view(r) == old(self).running(),
    {
        let ghost f = folder@;
        self.projects.insert(project_id, folder);
        assert(self.authorized() =~= old(self).authorized().insert(project_id, f));
        match &self.info {
            Some(i) => Some(i.copy()),
            None => None,
        }
    }

    /// Records where the service was started.
    pub fn started(&mut self, info: ServiceInfo)
        ensures
            final(self).authorized() == old(self).authorized(),
            final(self).running() == Some(info@),
    {
        self.info = Some(info);
    }

    /// The folder of an authorized project.
    pub fn folder(&self, project_id: u128) -> (r: Option<String>)
        ensures
            match r {
                Some(f) => self.authorized().contains_key(project_id) && f@ == self.authorized()[project_id],
                None => !self.authorized().contains_key(project_id),
            },
    {
        match self.projects.get(&project_id) {
            Some(f) => Some(f.clone()),
            None => None,
        }
    }
}

/// A request a client sends over the service socket.
#[derive(Debug)]
pub struct ServiceRequest {
    pub token: String,
    pub action: String,
    pub project_id: Option<u128>,
    pub envelope: Option<CommandEnvelope>,
}

/// What the service does with a request.
#[derive(Debug)]
pub enum ServiceStep {
    /// Answer with this error.
    Refuse(String),
    /// Load the project in this folder and answer with it.
    Snapshot(String),
    /// Dispatch the command to the project in this folder and persist it.
    Command(String, CommandEnvelope),
}

pub open spec fn msg_unauthorized() -> Seq<char> {
    "unauthorized command service request"@
}

/// The project a request is about: the envelope's, else the request's own.
pub open spec fn request_project(req: ServiceRequest) -> Option<u128> {
    match req.envelope {
        Some(e) => Some(e.project_id),
        None => req.project_id,
    }
}

pub enum StepView {
    Refuse(Seq<char>),
    Snapshot(Seq<char>),
    Command(Seq<char>),
}

pub open spec fn step_view(s: ServiceStep) -> StepView {
    match s {
        ServiceStep::Refuse(m) => StepView::Refuse(m@),
        ServiceStep::Snapshot(f) => StepView::Snapshot(f@),
        ServiceStep::Command(f, _) => StepView::Command(f@),
    }
}

/// How the service answers a request: only a request carrying the exact
/// token, about a project authorized this session, is served; it either
/// reads a snapshot or runs the enclosed command.
pub open spec fn plan(req: ServiceRequest, token: Seq<u8>, projects: Map<u128, Seq<char>>) -> StepView {
    if vstd::utf8::encode_utf8(req.token@) != token {
        StepView::Refuse(msg_unauthorized())
    } else {
        match request_project(req) {
            None => StepView::Refuse("projectId is required"@),
            Some(id) => if !projects.contains_key(id) {
                StepView::Refuse("project is not authorized for this app session"@)
            } else if req.action@ == "snapshot"@ {
                StepView::Snapshot(projects[id])
            } else if req.action@ == "command"@ {
                if req.envelope is Some {
                    StepView::Command(projects[id])
                } else {
                    StepView::Refuse("envelope is required"@)
                }
            } else {
                StepView::Refuse("unsupported command service action"@)
            },
        }
    }
}

/// Decides what to do with a request; see `plan`. A command step carries the request's envelope.
pub fn plan_request(request: ServiceRequest, expected_token: &str, service: &CommandService) -> (r: ServiceStep)
    ensures
        step_view(r) == plan(request, expected_token.spec_bytes(), service.authorized()),
        r matches ServiceStep::Command(_, env) ==> request.envelope == Some(env),
{
    let ghost req = request;
    if !constant_time_eq(request.token.as_str().as_bytes(), expected_token.as_bytes()) {
        return ServiceStep::Refuse(String::from_str("unauthorized command service request"));
    }
    let project_id = match &request.envelope {
        Some(e) => Some(e.project_id),
        None => request.project_id,
    };
    let project_id = match project_id {
        Some(id) => id,
        None => {
            return ServiceStep::Refuse(String::from_str("projectId is required"));
        },
    };
    let folder = match service.folder(project_id) {
        Some(f) => f,
        None => {
            return ServiceStep::Refuse(String::from_str("project is not authorized for this app session"));
        },
    };
    if text_eq(&request.action, "snapshot") {
        return ServiceStep::Snapshot(folder);
    }
    if text_eq(&request.action, "command") {
        return match request.envelope {
            Some(envelope) => ServiceStep::Command(folder, envelope),
            None => ServiceStep::Refuse(String::from_str("envelope is required")),
        };
    }
    ServiceStep::Refuse(String::from_str("unsupported command service action"))
}

/// A request without the exact token is refused, whatever else it holds.
pub proof fn lemma_token_required(req: ServiceRequest, token: Seq<u8>, projects: Map<u128, Seq<char>>)
    requires
        vstd::utf8::encode_utf8(req.token@) != token,
    ensures
        plan(req, token, projects) == StepView::Refuse(msg_unauthorized()),
{
}

/// A request about a project not authorized this session is never served.
pub proof fn lemma_authorization_required(req: ServiceRequest, token: Seq<u8>, projects: Map<u128, Seq<char>>)
    requires
        request_project(req) matches Some(id) && !projects.contains_key(id),
    ensures
        plan(req, token, projects) is Refuse,
{
}

/// The digits of an identifier's hyphenated text that a random (version 4)
/// UUID draws at random: all but the hyphens, the version digit (always 4)
/// and the variant digit (two of its bits fixed); thirty digits, 120 bits.
pub open spec fn random_digits(id: u128) -> Seq<char> {
    let u = uuid_text(id);
    u.subrange(0, 8) + u.subrange(9, 13) + u.subrange(15, 18) + u.subrange(20, 23) + u.subrange(24, 36)
}

/// A capability token from three random identifiers: the random digits of
/// the first two and the first four of the third, 64 hexadecimal digits
/// that carry 256 random bits.
pub open spec fn token_text(a: u128, b: u128, c: u128) -> Seq<char> {
    random_digits(a) + random_digits(b) + random_digits(c).take(4)
}

pub open spec fn is_lower_hex(c: char) -> bool {
    ('0' <= c <= '9') || ('a' <= c <= 'f')
}

proof fn lemma_hex_digit(d: int)
    requires
        0 <= d < 16,
    ensures
        is_lower_hex(hex_digit(d)),
{
}

proof fn lemma_random_digits(id: u128)
    ensures
        random_digits(id).len() == 30,
        forall|i: int| 0 <= i < 30 ==> is_lower_hex(#[trigger] random_digits(id)[i]),
{
    let u = uuid_text(id);
    assert forall|i: int| 0 <= i < 30 implies is_lower_hex(#[trigger] random_digits(id)[i]) by {
        let p: int = if i < 8 {
            i
        } else if i < 12 {
            i + 1
        } else if i < 15 {
            i + 3
        } else if i < 18 {
            i + 5
        } else {
            i + 6
        };
        assert(random_digits(id)[i] == u[p]);
        let hyphens: int = if p < 8 {
            0
        } else if p < 13 {
            1
        } else if p < 18 {
            2
        } else if p < 23 {
            3
        } else {
            4
        };
        lemma_hex_digit(id_nibble(id, p - hyphens));
    }
}

/// Every token is 64 lowercase hexadecimal digits.
pub proof fn lemma_token_shape(a: u128, b: u128, c: u128)
    ensures
        token_text(a, b, c).len() == 64,
        forall|i: int| 0 <= i < 64 ==> is_lower_hex(#[trigger] token_text(a, b, c)[i]),
{
    lemma_random_digits(a);
    lemma_random_digits(b);
    lemma_random_digits(c);
    let t = token_text(a, b, c);
    assert forall|i: int| 0 <= i < 64 implies is_lower_hex(#[trigger] t[i]) by {
        if i < 30 {
            assert(t[i] == random_digits(a)[i]);
        } else if i < 60 {
            assert(t[i] == random_digits(b)[i - 30]);
        } else {
            assert(t[i] == random_digits(c)[i - 60]);
        }
    }
}

fn random_part(id: u128) -> (s: String)
    ensures
        s@ == random_digits(id),
{
    let u = uuid_string(id);
    let t = u.as_str();
    assert(t@.len() == 36);
    let mut s = String::from_str(t.substring_char(0, 8));
    s.append(t.substring_char(9, 13));
    s.append(t.substring_char(15, 18));
    s.append(t.substring_char(20, 23));
    s.append(t.substring_char(24, 36));
    s
}

/// The capability token made from three identifiers; see `token_text`.
pub fn capability_token_from(a: u128, b: u128, c: u128) -> (t: String)
    ensures
        t@ == token_text(a, b, c),
{
    let mut t = random_part(a);
    let second = random_part(b);
    t.append(second.as_str());
    let third = random_part(c);
    proof {
        lemma_random_digits(c);
    }
    t.append(third.as_str().substring_char(0, 4));
    t
}

/// A new capability token, made from three fresh random identifiers: 64
/// lowercase hexadecimal digits carrying 256 of their random bits.
pub fn capability_token() -> (t: String)
    ensures
        t@.len() == 64,
        forall|i: int| 0 <= i < 64 ==> is_lower_hex(#[trigger] t@[i]),
        exists|a: u128, b: u128, c: u128| is_v4(a) && is_v4(b) && is_v4(c) && t@ == token_text(a, b, c),
{
    let a = fresh_id();
    let b = fresh_id();
    let c = fresh_id();
    let t = capability_token_from(a, b, c);
    proof {
        lemma_token_shape(a, b, c);
    }
    t
}

/// Authorizations accumulate: after a project p1 and then a project p2 are
/// authorized (each call replacing the folder of its project, and neither
/// changing where the service runs or its token), a snapshot request with
/// the session's token is served for either project, from the folder it
/// was last authorized with.
pub proof fn lemma_authorizations_accumulate(
    before: Map<u128, Seq<char>>,
    p1: u128,
    f1: Seq<char>,
    p2: u128,
    f2: Seq<char>,
    req: ServiceRequest,
    token: Seq<u8>,
)
    requires
        vstd::utf8::encode_utf8(req.token@) == token,
        request_project(req) == Some(p1) || request_project(req) == Some(p2),
        req.action@ == "snapshot"@,
    ensures
        plan(req, token, before.insert(p1, f1).insert(p2, f2)) == StepView::Snapshot(
            if request_project(req) == Some(p2) { f2 } else { f1 },
        ),
{
}

} // verus!
