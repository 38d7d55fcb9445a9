//! Wrapping the key of an image layer: which KEK, and what is asked of DSM in which order.
use crate::annotation;
use crate::annotation::AnnotationPacket;
use crate::codec;
use crate::dsm;
use crate::dsm::{DsmError, EncryptRequest, EncryptResponse, SobjectRequest};
use crate::kek;
use crate::kek::{Kek, KekChoice, KekMode};
use crate::key_uuid;
use crate::key_uuid::KeyUuid;
use crate::text;
use vstd::prelude::*;

verus! {

/// How far the KEK is that all layers share in `KekMode::Shared`.
#[derive(Debug, PartialEq, Eq)]
enum SharedKek {
    /// There is none.
    Absent,
    /// DSM is creating it.
    Creating,
    /// This is it.
    Ready(Kek),
}

/// What wraps keys with DSM: where it is, how KEKs are chosen, and what has been created so far.
#[derive(Debug, PartialEq, Eq)]
pub struct DsmProvider {
    endpoint: Option<String>,
    api_key: Option<String>,
    kek_mode: KekMode,
    kek_name: Option<String>,
    /// The KEK that all layers share in `KekMode::Shared`.
    shared_kek: SharedKek,
    /// The suffix of the next layer's KEK, so that no two have the same name.
    layer_seq: usize,
}

/// How far the shared KEK is, over mathematical values.
pub enum SharedState {
    /// There is none.
    Absent,
    /// DSM is creating it.
    Creating,
    /// This is its UUID.
    Ready(Seq<u8>),
}

/// A `DsmProvider`, over mathematical values.
pub struct DsmState {
    /// Where DSM is.
    pub endpoint: Option<Seq<char>>,
    /// The key to authenticate with.
    pub api_key: Option<Seq<char>>,
    /// How many KEKs to create.
    pub kek_mode: KekMode,
    /// The name to create them under.
    pub kek_name: Option<Seq<char>>,
    /// The KEK that all layers share.
    pub shared_kek: SharedState,
    /// The suffix of the next layer's KEK.
    pub layer_seq: nat,
}

impl View for DsmProvider {
    type V = DsmState;

    closed spec fn view(&self) -> DsmState {
        DsmState {
            endpoint: text::optional(self.endpoint),
            api_key: text::optional(self.api_key),
            kek_mode: self.kek_mode,
            kek_name: text::optional(self.kek_name),
            shared_kek: match self.shared_kek {
                SharedKek::Absent => SharedState::Absent,
                SharedKek::Creating => SharedState::Creating,
                SharedKek::Ready(kek) => SharedState::Ready(kek@),
            },
            layer_seq: self.layer_seq as nat,
        }
    }
}

/// The name of a KEK for one layer: the wanted name and the number of the layer.
pub open spec fn layer_name(name: Seq<char>, layer: nat) -> Seq<char> {
    name + "-"@ + text::decimal(layer)
}

/// The number behind `layer`. It starts over where the counter ends.
pub open spec fn next_layer(layer: nat) -> nat {
    if layer < usize::MAX {
        layer + 1
    } else {
        0
    }
}

/// What to do about the KEK of a layer, over mathematical values.
pub enum KekPlan {
    /// Use the KEK with this UUID.
    Use(Seq<u8>),
    /// Create one, under this name if there is one.
    Create(Option<Seq<char>>),
    /// Wait for the one that DSM is creating, and want a KEK under this name again.
    Wait(Option<Seq<char>>),
}

impl DsmState {
    /// The plan for a layer that wants a new KEK under `name`.
    pub open spec fn new_kek_plan(self, name: Option<Seq<char>>) -> KekPlan {
        match (self.kek_mode, self.shared_kek, name) {
            (KekMode::Shared, SharedState::Ready(uuid), _) => KekPlan::Use(uuid),
            (KekMode::Shared, SharedState::Creating, _) => KekPlan::Wait(name),
            (KekMode::Shared, SharedState::Absent, _) => KekPlan::Create(name),
            (KekMode::PerLayer, _, Some(n)) => KekPlan::Create(
                Some(layer_name(n, self.layer_seq)),
            ),
            (KekMode::PerLayer, _, None) => KekPlan::Create(None),
        }
    }

    /// The state behind that plan: a layer that gets a name of its own uses a number up, and a
    /// shared KEK is created for one layer only.
    pub open spec fn after_new_kek(self, name: Option<Seq<char>>) -> DsmState {
        match (self.kek_mode, self.shared_kek) {
            (KekMode::PerLayer, _) if name is Some => DsmState {
                layer_seq: next_layer(self.layer_seq),
                ..self
            },
            (KekMode::Shared, SharedState::Absent) => DsmState {
                shared_kek: SharedState::Creating,
                ..self
            },
            _ => self,
        }
    }

    /// The KEK to use once DSM has created `uuid`: in `KekMode::Shared` the first one created.
    pub open spec fn kek_after_creation(self, uuid: Seq<u8>) -> Seq<u8> {
        match (self.kek_mode, self.shared_kek) {
            (KekMode::Shared, SharedState::Ready(first)) => first,
            _ => uuid,
        }
    }

    /// The state once DSM has created `uuid`.
    pub open spec fn after_creation(self, uuid: Seq<u8>) -> DsmState {
        if self.kek_mode == KekMode::Shared {
            DsmState { shared_kek: SharedState::Ready(self.kek_after_creation(uuid)), ..self }
        } else {
            self
        }
    }

    /// The state once DSM has failed to create a KEK: a shared one is absent again.
    pub open spec fn after_failure(self) -> DsmState {
        match self.shared_kek {
            SharedState::Creating => DsmState { shared_kek: SharedState::Absent, ..self },
            _ => self,
        }
    }
}

/// What to do about the KEK of a layer.
#[derive(Debug, PartialEq, Eq)]
pub enum KekStep {
    /// Use this one.
    Use(Kek),
    /// Create one, under this name if there is one.
    Create(Option<String>),
    /// Wait for the one that DSM is creating, and want a KEK under this name again.
    Wait(Option<String>),
}

impl KekStep {
    /// Whether this is what `plan` says.
    pub open spec fn follows(self, plan: KekPlan) -> bool {
        match (self, plan) {
            (KekStep::Use(kek), KekPlan::Use(uuid)) => kek@ == uuid,
            (KekStep::Create(name), KekPlan::Create(wanted)) => text::optional(name) == wanted,
            (KekStep::Wait(name), KekPlan::Wait(wanted)) => text::optional(name) == wanted,
            _ => false,
        }
    }
}

impl DsmProvider {
    /// A provider that has created nothing yet.
    pub fn new(
        endpoint: Option<String>,
        api_key: Option<String>,
        kek_mode: KekMode,
        kek_name: Option<String>,
    ) -> (provider: DsmProvider)
        ensures
            provider@ == (DsmState {
                endpoint: text::optional(endpoint),
                api_key: text::optional(api_key),
                kek_mode,
                kek_name: text::optional(kek_name),
                shared_kek: SharedState::Absent,
                layer_seq: 0,
            }),
    {
        DsmProvider {
            endpoint,
            api_key,
            kek_mode,
            kek_name,
            shared_kek: SharedKek::Absent,
            layer_seq: 0,
        }
    }

    /// Where DSM is and what to authenticate with, if both are configured.
    pub fn access(&self) -> (access: Option<(String, String)>)
        ensures
            match (self@.endpoint, self@.api_key) {
                (Some(endpoint), Some(key)) => access matches Some((e, k)) && e@ == endpoint && k@
                    == key,
                _ => access is None,
            },
    {
        match (&self.endpoint, &self.api_key) {
            (Some(endpoint), Some(key)) => Some((endpoint.clone(), key.clone())),
            _ => None,
        }
    }

    /// How many KEKs are created for one image.
    pub fn kek_mode(&self) -> (mode: KekMode)
        ensures
            mode == self@.kek_mode,
    {
        self.kek_mode
    }

    /// Finds a KEK for a layer that names no existing one.
    pub fn new_kek(&mut self, name: Option<String>) -> (step: KekStep)
        ensures
            step.follows(old(self)@.new_kek_plan(text::optional(name))),
            final(self)@ == old(self)@.after_new_kek(text::optional(name)),
    {
        match self.kek_mode {
            KekMode::Shared => match &self.shared_kek {
                SharedKek::Ready(kek) => KekStep::Use(kek.duplicate()),
                SharedKek::Creating => KekStep::Wait(name),
                SharedKek::Absent => {
                    self.shared_kek = SharedKek::Creating;
                    KekStep::Create(name)
                }
            },
            KekMode::PerLayer => match name {
                Some(n) => {
                    let mut full = n;
                    full.append("-");
                    full.append(text::to_decimal(self.layer_seq).as_str());
                    self.layer_seq = if self.layer_seq < usize::MAX {
                        self.layer_seq + 1
                    } else {
                        0
                    };
                    KekStep::Create(Some(full))
                }
                None => KekStep::Create(None),
            },
        }
    }

    /// Takes note that DSM has failed to create a KEK, so that a shared one is created for
    /// another layer.
    pub fn creation_failed(&mut self)
        ensures
            final(self)@ == old(self)@.after_failure(),
    {
        if matches!(self.shared_kek, SharedKek::Creating) {
            self.shared_kek = SharedKek::Absent;
        }
    }

    /// Takes note of the key that DSM created, and gives the KEK to use.
    pub fn kek_created(&mut self, kid: Option<KeyUuid>) -> (kek: Result<Kek, DsmError>)
        ensures
            match kid {
                None => {
                    &&& kek == Err::<Kek, _>(DsmError::NoKid)
                    &&& final(self)@ == old(self)@.after_failure()
                },
                Some(uuid) => {
                    &&& kek matches Ok(k)
                    &&& k@ == old(self)@.kek_after_creation(uuid@)
                    &&& final(self)@ == old(self)@.after_creation(uuid@)
                },
            },
    {
        let Some(uuid) = kid else {
            self.creation_failed();
            return Err(DsmError::NoKid);
        };
        match self.kek_mode {
            KekMode::PerLayer => Ok(Kek::new(uuid)),
            KekMode::Shared => {
                if let SharedKek::Ready(first) = &self.shared_kek {
                    return Ok(first.duplicate());
                }
                let kek = Kek::new(uuid);
                self.shared_kek = SharedKek::Ready(kek.duplicate());
                Ok(kek)
            }
        }
    }
}

/// The plan for a layer with parameters `params`: the DSM KEK that its `keyid` names, or a new
/// one. There is none for a `keyid` that is refused.
pub open spec fn layer_plan(state: DsmState, params: Seq<Seq<char>>) -> Option<KekPlan> {
    match kek::requested_keyid(params) {
        Some(id) if kek::kid_tag(id) is Some => match key_uuid::uuid_bytes(kek::kid_tag(id)->0) {
            Some(uuid) => Some(KekPlan::Use(uuid)),
            None => None,
        },
        Some(id) if kek::KBS_PREFIX@.is_prefix_of(id) => None,
        keyid => Some(state.new_kek_plan(kek::wanted_name(keyid, state.kek_name))),
    }
}

/// The state behind that plan. A layer that names a DSM KEK, or that is refused, changes nothing.
pub open spec fn after_layer(state: DsmState, params: Seq<Seq<char>>) -> DsmState {
    match kek::requested_keyid(params) {
        Some(id) if kek::kid_tag(id) is Some || kek::KBS_PREFIX@.is_prefix_of(id) => state,
        keyid => state.after_new_kek(kek::wanted_name(keyid, state.kek_name)),
    }
}

/// A layer whose KEK DSM has yet to create.
#[derive(Debug, PartialEq, Eq)]
pub struct PendingKek {
    optsdata: Vec<u8>,
}

impl View for PendingKek {
    type V = Seq<u8>;

    /// The key to wrap.
    closed spec fn view(&self) -> Seq<u8> {
        self.optsdata@
    }
}

/// A layer whose key DSM has yet to wrap.
#[derive(Debug, PartialEq, Eq)]
pub struct PendingKey {
    kek: Kek,
    plain_len: usize,
}

impl View for PendingKey {
    type V = (Seq<u8>, nat);

    /// The UUID of the KEK, and the length of the key to wrap.
    closed spec fn view(&self) -> (Seq<u8>, nat) {
        (self.kek@, self.plain_len as nat)
    }
}

/// A layer that waits for a KEK that DSM is creating for another one.
#[derive(Debug, PartialEq, Eq)]
pub struct WaitingLayer {
    optsdata: Vec<u8>,
    name: Option<String>,
}

impl View for WaitingLayer {
    type V = (Seq<u8>, Option<Seq<char>>);

    /// The key to wrap, and the name that is wanted for a new KEK.
    closed spec fn view(&self) -> (Seq<u8>, Option<Seq<char>>) {
        (self.optsdata@, text::optional(self.name))
    }
}

/// What to ask of DSM next for a layer.
#[derive(Debug, PartialEq, Eq)]
pub enum LayerStep {
    /// To create a KEK.
    CreateKek(PendingKek, SobjectRequest),
    /// To wrap the key.
    Encrypt(PendingKey, EncryptRequest),
    /// Nothing, until a KEK that it is creating is there or has failed.
    Wait(WaitingLayer),
}

impl LayerStep {
    /// Whether this is what `plan` says for a layer with the key `optsdata`.
    pub open spec fn follows(self, plan: KekPlan, optsdata: Seq<u8>) -> bool {
        match (self, plan) {
            (LayerStep::CreateKek(pending, request), KekPlan::Create(name)) => {
                &&& pending@ == optsdata
                &&& request.asks_for_named_kek(name)
            },
            (LayerStep::Encrypt(pending, request), KekPlan::Use(uuid)) => {
                &&& pending@ == (uuid, optsdata.len())
                &&& request.asks_to_wrap(optsdata, uuid)
            },
            (LayerStep::Wait(waiting), KekPlan::Wait(name)) => waiting@ == (optsdata, name),
            _ => false,
        }
    }
}

impl PendingKey {
    /// A layer with the key `optsdata`, to wrap with `kek`, and the request to do so.
    fn start(kek: Kek, optsdata: Vec<u8>) -> (started: (PendingKey, EncryptRequest))
        ensures
            started.0@ == (kek@, optsdata@.len()),
            started.1.asks_to_wrap(optsdata@, kek@),
    {
        let plain_len: usize = optsdata.len();
        let request = dsm::encrypt_dek(&kek, optsdata);
        (PendingKey { kek, plain_len }, request)
    }

    /// Takes what DSM wrapped, and writes the annotation of the layer.
    pub fn encrypted(self, response: EncryptResponse) -> (packet: Result<
        AnnotationPacket,
        DsmError,
    >)
        requires
            codec::base64_fits(response.cipher@),
            response.iv matches Some(iv) ==> codec::base64_fits(iv@),
        ensures
            match dsm::wrap_problem(response, self@.1) {
                Some(problem) => packet matches Err(e) && e == problem,
                None => packet matches Ok(p) && annotation::carries(
                    p,
                    self@.0,
                    response.cipher@,
                    response.iv->0@,
                    response.tag->0@,
                ),
            },
    {
        match dsm::check_wrapped(response, self.plain_len) {
            Ok(wrapped) => Ok(annotation::annotate(&self.kek, &wrapped)),
            Err(e) => Err(e),
        }
    }
}

impl PendingKek {
    /// Takes the kid of the key that DSM created, and asks to wrap the layer's key with it.
    pub fn created(self, provider: &mut DsmProvider, kid: Option<KeyUuid>) -> (next: Result<
        (PendingKey, EncryptRequest),
        DsmError,
    >)
        ensures
            match kid {
                None => {
                    &&& next matches Err(e)
                    &&& e == DsmError::NoKid
                    &&& final(provider)@ == old(provider)@.after_failure()
                },
                Some(uuid) => {
                    let kek = old(provider)@.kek_after_creation(uuid@);
                    &&& next matches Ok((pending, request))
                    &&& pending@ == (kek, self@.len())
                    &&& request.asks_to_wrap(self@, kek)
                    &&& final(provider)@ == old(provider)@.after_creation(uuid@)
                },
            },
    {
        match provider.kek_created(kid) {
            Ok(kek) => Ok(PendingKey::start(kek, self.optsdata)),
            Err(e) => Err(e),
        }
    }
}

impl WaitingLayer {
    /// Goes on with the layer, once the KEK that it waits for is there or has failed.
    pub fn resume(self, provider: &mut DsmProvider) -> (step: LayerStep)
        ensures
            step.follows(old(provider)@.new_kek_plan(self@.1), self@.0),
            final(provider)@ == old(provider)@.after_new_kek(self@.1),
    {
        provider.wrap_with_new_kek(self.optsdata, self.name)
    }
}

impl DsmProvider {
    /// Goes on with a layer that names no existing KEK and wants one under `name`.
    fn wrap_with_new_kek(&mut self, optsdata: Vec<u8>, name: Option<String>) -> (step: LayerStep)
        ensures
            step.follows(old(self)@.new_kek_plan(text::optional(name)), optsdata@),
            final(self)@ == old(self)@.after_new_kek(text::optional(name)),
    {
        match self.new_kek(name) {
            KekStep::Use(kek) => {
                let (pending, request) = PendingKey::start(kek, optsdata);
                LayerStep::Encrypt(pending, request)
            }
            KekStep::Create(name) => {
                LayerStep::CreateKek(PendingKek { optsdata }, dsm::create_named_kek(name))
            }
            KekStep::Wait(name) => LayerStep::Wait(WaitingLayer { optsdata, name }),
        }
    }

    /// Starts to wrap the key `optsdata` of a layer with parameters `params`.
    pub fn encrypt_optsdata(&mut self, optsdata: Vec<u8>, params: &Vec<String>) -> (step: Result<
        LayerStep,
        DsmError,
    >)
        ensures
            match layer_plan(old(self)@, text::texts(params@)) {
                Some(plan) => step matches Ok(s) && s.follows(plan, optsdata@),
                None => step matches Err(e) && kek::chosen(
                    kek::requested_keyid(text::texts(params@)),
                    old(self)@.kek_name,
                    Err(e),
                ),
            },
            final(self)@ == after_layer(old(self)@, text::texts(params@)),
    {
        match kek::choose_kek(params, &self.kek_name) {
            Ok(KekChoice::Existing(kek)) => {
                let (pending, request) = PendingKey::start(kek, optsdata);
                Ok(LayerStep::Encrypt(pending, request))
            }
            Ok(KekChoice::New(name)) => Ok(self.wrap_with_new_kek(optsdata, name)),
            Err(e) => Err(e),
        }
    }
}

} // verus!
