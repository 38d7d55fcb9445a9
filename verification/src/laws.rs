//! What holds of the library as a whole.
use crate::annotation;
use crate::annotation::AnnotationPacket;
use crate::ccm_kbc;
use crate::codec;
use crate::dsm::DsmError;
use crate::identity;
use crate::kek;
use crate::kek::KekMode;
use crate::key_provider;
use crate::key_provider::{Code, KeyWrapParams, WrapError, WrapStep};
use crate::key_uuid;
use crate::resource_uri;
use crate::resource_uri::ResourceUriError;
use crate::text;
use crate::wrap;
use crate::wrap::{DsmState, KekPlan, LayerStep, SharedState};
use vstd::prelude::*;
use vstd::utf8::*;

verus! {

/// Address and path of a URI with the configured address.
proof fn local_uri_parts(path: Seq<char>)
    ensures
        resource_uri::uri_parts(kek::KBS_PREFIX@ + path) == Ok::<_, ResourceUriError>(
            (Seq::<char>::empty(), path),
        ),
{
    reveal_strlit("kbs:///");
    reveal_strlit("kbs://");
    reveal_strlit("/");
    let uri = kek::KBS_PREFIX@ + path;
    let rest = uri.skip(resource_uri::SCHEME@.len() as int);
    assert(resource_uri::SCHEME@ =~= uri.take(6));
    assert(rest =~= Seq::<char>::empty() + resource_uri::SLASH@ + path);
    text::divided_behind(Seq::empty(), resource_uri::SLASH@, path);
}

/// The segments of a path that names a key by a tag without a slash.
#[verifier::spinoff_prover]
proof fn three_segments(tag: Seq<char>)
    requires
        !tag.contains('/'),
    ensures
        text::pieces("dsm/key/"@ + tag, resource_uri::SLASH@) == seq!["dsm"@, "key"@, tag],
{
    reveal_strlit("dsm/key/");
    reveal_strlit("dsm");
    reveal_strlit("key");
    reveal_strlit("/");
    let slash = resource_uri::SLASH@;
    let rest = "key"@ + slash + tag;
    assert("dsm/key/"@ + tag =~= "dsm"@ + slash + rest);
    text::divided_behind("dsm"@, slash, rest);
    text::divided_behind("key"@, slash, tag);
    text::undivided(tag, slash);
    assert(text::pieces(tag, slash) == seq![tag]);
    assert(text::pieces(rest, slash) == seq!["key"@] + text::pieces(tag, slash));
    assert(text::pieces("dsm"@ + slash + rest, slash) == seq!["dsm"@] + text::pieces(rest, slash));
    assert(seq!["dsm"@] + (seq!["key"@] + seq![tag]) =~= seq!["dsm"@, "key"@, tag]);
}

/// The kid of every KEK is a resource URI with three segments: repository `dsm`, type `key`, and
/// the UUID as the tag. Whoever reads it as such finds the KEK again.
#[verifier::spinoff_prover]
pub proof fn kid_is_resource_uri(uuid: Seq<u8>)
    requires
        uuid.len() == 16,
    ensures
        ({
            let path = "dsm/key/"@ + key_uuid::hyphenated(uuid);
            &&& resource_uri::uri_parts(kek::kid_text(uuid)) == Ok::<_, ResourceUriError>(
                (Seq::<char>::empty(), path),
            )
            &&& text::pieces(path, resource_uri::SLASH@) == seq![
                "dsm"@,
                "key"@,
                key_uuid::hyphenated(uuid),
            ]
            &&& identity::path_uuid(path) == Ok::<_, Seq<char>>(uuid)
        }),
{
    reveal_strlit("kbs:///dsm/key/");
    reveal_strlit("kbs:///");
    reveal_strlit("dsm/key/");
    let tag = key_uuid::hyphenated(uuid);
    let path = "dsm/key/"@ + tag;
    key_uuid::hyphenated_is_plain(uuid);
    key_uuid::hyphenated_reads_back(uuid);
    assert(!tag.contains('/'));
    assert(kek::kid_text(uuid) =~= kek::KBS_PREFIX@ + path);
    local_uri_parts(path);
    three_segments(tag);
}

/// A kid of two segments is a resource URI too, but names no entry of a repository, so nothing
/// that reads it as one finds a KEK.
#[verifier::spinoff_prover]
pub proof fn legacy_kid_names_no_entry(uuid: Seq<u8>)
    requires
        uuid.len() == 16,
    ensures
        ({
            let path = "dsm/"@ + key_uuid::hyphenated(uuid);
            &&& resource_uri::uri_parts(kek::LEGACY_KID_PREFIX@ + key_uuid::hyphenated(uuid)) == Ok::<
                _,
                ResourceUriError,
            >((Seq::<char>::empty(), path))
            &&& text::pieces(path, resource_uri::SLASH@).len() == 2
            &&& identity::path_uuid(path) == Err::<Seq<u8>, _>(ResourceUriError::Segments.words())
        }),
{
    reveal_strlit("kbs:///dsm/");
    reveal_strlit("kbs:///");
    reveal_strlit("dsm/");
    reveal_strlit("dsm");
    reveal_strlit("/");
    let tag = key_uuid::hyphenated(uuid);
    let slash = resource_uri::SLASH@;
    let path = "dsm/"@ + tag;
    key_uuid::hyphenated_is_plain(uuid);
    assert(kek::LEGACY_KID_PREFIX@ + tag =~= kek::KBS_PREFIX@ + path);
    local_uri_parts(path);
    assert(path =~= "dsm"@ + slash + tag);
    text::divided_behind("dsm"@, slash, tag);
    text::undivided(tag, slash);
    assert(text::pieces(tag, slash) == seq![tag]);
    assert(text::pieces(path, slash) == seq!["dsm"@] + text::pieces(tag, slash));
}

/// The tag of a kid is read from either form. A kid of two segments whose tag starts with `key/`
/// is one of three segments.
pub proof fn either_kid_is_read(tag: Seq<char>)
    ensures
        kek::kid_tag(kek::KID_PREFIX@ + tag) == Some(tag),
        !"key/"@.is_prefix_of(tag) ==> kek::kid_tag(kek::LEGACY_KID_PREFIX@ + tag) == Some(tag),
{
    reveal_strlit("kbs:///dsm/key/");
    reveal_strlit("kbs:///dsm/");
    reveal_strlit("key/");
    let long = kek::KID_PREFIX@ + tag;
    assert(long.take(15) =~= kek::KID_PREFIX@);
    assert(long.skip(15) =~= tag);
    let short = kek::LEGACY_KID_PREFIX@ + tag;
    assert(short.take(11) =~= kek::LEGACY_KID_PREFIX@);
    assert(short.skip(11) =~= tag);
    if kek::KID_PREFIX@.is_prefix_of(short) {
        assert(short.take(15) =~= kek::KID_PREFIX@);
        assert forall|i: int| 0 <= i < 4 implies tag[i] == "key/"@[i] by {
            assert(short.take(15)[11 + i] == tag[i]);
        }
        assert("key/"@ =~= tag.take(4));
    }
}

/// What the wrapping side writes, the unwrapping side reads: the kid names the KEK, and the
/// annotation gives back the ciphertext, the initialisation vector and the tag.
pub proof fn annotation_reads_back(
    packet: AnnotationPacket,
    kek: Seq<u8>,
    cipher: Seq<u8>,
    iv: Seq<u8>,
    tag: Seq<u8>,
)
    requires
        kek.len() == 16,
        annotation::carries(packet, kek, cipher, iv, tag),
    ensures
        resource_uri::uri_parts(packet.kid@) is Ok,
        identity::path_uuid(resource_uri::uri_parts(packet.kid@)->Ok_0.1) == Ok::<_, Seq<char>>(
            kek,
        ),
        codec::base64_bytes(packet.wrapped_data@) == Some(cipher),
        ccm_kbc::crypt_bytes(annotation::json_fields(packet.annotations->0)) == Ok::<_, Seq<char>>(
            (iv, tag),
        ),
{
    reveal_strlit("iv");
    reveal_strlit("tag");
    kid_is_resource_uri(kek);
    codec::base64_round_trip(cipher);
    codec::base64_round_trip(iv);
    codec::base64_round_trip(tag);
    assert("iv"@.len() != "tag"@.len());
}

/// A parameter `keyid=<value>` asks for `value`, whatever `value` is, as long as it does not part
/// fields itself.
#[verifier::spinoff_prover]
pub proof fn keyid_parameter_is_read(value: Seq<char>)
    requires
        forall|at: int| !text::occurs_at(value, kek::FIELD_SEPARATOR@, at),
    ensures
        kek::keyid_field("keyid="@ + value) == Some(value),
{
    reveal_strlit("keyid=");
    reveal_strlit("keyid");
    reveal_strlit("=");
    reveal_strlit("::");
    let parameter = "keyid="@ + value;
    let separator = kek::FIELD_SEPARATOR@;
    if text::divided(parameter, separator) is Some {
        let at = choose|at: int| text::first_occurs_at(parameter, separator, at);
        assert(text::first_occurs_at(parameter, separator, at));
        assert(parameter.subrange(at, at + 2)[0] == ':');
        assert(parameter[at] == ':');
        assert(at >= 6);
        assert(value.subrange(at - 6, at - 4) =~= parameter.subrange(at, at + 2));
        assert(text::occurs_at(value, separator, at - 6));
    }
    reveal_with_fuel(text::pieces, 2);
    assert(text::pieces(parameter, separator) =~= seq![parameter]);
    assert(parameter =~= "keyid"@ + "="@ + value);
    text::divided_behind("keyid"@, "="@, value);
    reveal_with_fuel(kek::first_keyid, 2);
}

/// The kid of a KEK, in either form, parts no fields.
proof fn kid_parts_no_fields(prefix: Seq<char>, uuid: Seq<u8>)
    requires
        prefix == kek::KID_PREFIX@ || prefix == kek::LEGACY_KID_PREFIX@,
        uuid.len() == 16,
    ensures
        forall|at: int|
            !text::occurs_at(prefix + key_uuid::hyphenated(uuid), kek::FIELD_SEPARATOR@, at),
{
    reveal_strlit("kbs:///dsm/key/");
    reveal_strlit("kbs:///dsm/");
    reveal_strlit("::");
    key_uuid::hyphenated_is_plain(uuid);
    let kid = prefix + key_uuid::hyphenated(uuid);
    assert forall|at: int| !text::occurs_at(kid, kek::FIELD_SEPARATOR@, at) by {
        if text::occurs_at(kid, kek::FIELD_SEPARATOR@, at) {
            assert(kid.subrange(at, at + 2)[0] == ':');
            assert(kid.subrange(at, at + 2)[1] == ':');
            assert(kid[at] == ':' && kid[at + 1] == ':');
        }
    }
}

/// A kid that was written for a layer, given as the `keyid` of another one, selects the same KEK,
/// and so does the kid of two segments. This holds in either mode, and leaves the provider as it
/// was.
#[verifier::spinoff_prover]
pub proof fn recorded_kid_selects_its_kek(state: DsmState, params: Seq<Seq<char>>, uuid: Seq<u8>)
    requires
        uuid.len() == 16,
        params.len() > 0,
        params[0] == "keyid="@ + kek::kid_text(uuid) || params[0] == "keyid="@ + (
        kek::LEGACY_KID_PREFIX@ + key_uuid::hyphenated(uuid)),
    ensures
        wrap::layer_plan(state, params) == Some(KekPlan::Use(uuid)),
        wrap::after_layer(state, params) == state,
{
    reveal_strlit("key/");
    let tag = key_uuid::hyphenated(uuid);
    key_uuid::hyphenated_is_plain(uuid);
    key_uuid::hyphenated_reads_back(uuid);
    if "key/"@.is_prefix_of(tag) {
        assert(tag.subrange(0, 4)[0] == 'k');
    }
    either_kid_is_read(tag);
    kid_parts_no_fields(kek::KID_PREFIX@, uuid);
    kid_parts_no_fields(kek::LEGACY_KID_PREFIX@, uuid);
    if params[0] == "keyid="@ + kek::kid_text(uuid) {
        keyid_parameter_is_read(kek::kid_text(uuid));
    } else {
        keyid_parameter_is_read(kek::LEGACY_KID_PREFIX@ + tag);
    }
}

/// A `keyid` that names a DSM KEK overrides the mode and the configured name: every provider
/// plans the same for it, and stays as it was.
pub proof fn named_kek_overrides_provider(a: DsmState, b: DsmState, params: Seq<Seq<char>>)
    requires
        kek::requested_keyid(params) is Some,
        kek::kid_tag(kek::requested_keyid(params)->0) is Some,
    ensures
        wrap::layer_plan(a, params) == wrap::layer_plan(b, params),
        wrap::after_layer(a, params) == a,
{
}

/// An empty `keyid` is the same as none.
pub proof fn empty_keyid_is_none(state: DsmState, empty: Seq<Seq<char>>, none: Seq<Seq<char>>)
    requires
        kek::requested_keyid(empty) == Some(Seq::<char>::empty()),
        kek::requested_keyid(none) is None,
    ensures
        wrap::layer_plan(state, empty) == wrap::layer_plan(state, none),
        wrap::after_layer(state, empty) == wrap::after_layer(state, none),
{
    reveal_strlit("kbs:///dsm/key/");
    reveal_strlit("kbs:///dsm/");
    reveal_strlit("kbs:///");
}

/// In `KekMode::Shared` the first layer that names no KEK creates one, under the name it wants.
/// Others wait meanwhile, and from then on every layer uses that KEK, whatever name it wants. A
/// creation that fails leaves things as they were before.
pub proof fn shared_kek_is_used_throughout(
    state: DsmState,
    first: Seq<u8>,
    name: Option<Seq<char>>,
    other: Option<Seq<char>>,
)
    requires
        state.kek_mode == KekMode::Shared,
        state.shared_kek == SharedState::Absent,
    ensures
        state.new_kek_plan(name) == KekPlan::Create(name),
        ({
            let creating = state.after_new_kek(name);
            let ready = creating.after_creation(first);
            &&& creating.new_kek_plan(other) == KekPlan::Wait(other)
            &&& creating.after_new_kek(other) == creating
            &&& creating.after_failure() == state
            &&& creating.kek_after_creation(first) == first
            &&& ready.new_kek_plan(other) == KekPlan::Use(first)
            &&& ready.after_new_kek(other) == ready
            &&& ready.after_failure() == ready
        }),
{
}

/// Layers with different names or different numbers get KEKs with different names.
pub proof fn layer_names_differ(a: Seq<char>, i: nat, b: Seq<char>, j: nat)
    requires
        a != b || i != j,
    ensures
        wrap::layer_name(a, i) != wrap::layer_name(b, j),
{
    reveal_strlit("-");
    if wrap::layer_name(a, i) == wrap::layer_name(b, j) {
        let full = wrap::layer_name(a, i);
        text::decimal_is_digits(i);
        text::decimal_is_digits(j);
        let x = text::decimal(i);
        let y = text::decimal(j);
        assert(full =~= a + "-"@ + x);
        assert(full =~= b + "-"@ + y);
        assert(full[a.len() as int] == '-');
        assert(full[b.len() as int] == '-');
        if a.len() < b.len() {
            assert(full[b.len() as int] == x[b.len() - a.len() - 1]);
        }
        if b.len() < a.len() {
            assert(full[a.len() as int] == y[a.len() - b.len() - 1]);
        }
        assert(a =~= full.take(a.len() as int));
        assert(b =~= full.take(b.len() as int));
        assert(x =~= full.skip(a.len() + 1int));
        assert(y =~= full.skip(b.len() + 1int));
        text::decimal_is_injective(i, j);
    }
}

/// What a provider goes through.
pub enum KekEvent {
    /// A layer wants a new KEK, under this name if there is one.
    Wanted(Option<Seq<char>>),
    /// DSM has created the KEK with this UUID for some layer.
    Created(Seq<u8>),
    /// DSM has failed to create a KEK for some layer.
    Failed,
}

/// The state behind an event.
pub open spec fn after_event(state: DsmState, event: KekEvent) -> DsmState {
    match event {
        KekEvent::Wanted(name) => state.after_new_kek(name),
        KekEvent::Created(uuid) => state.after_creation(uuid),
        KekEvent::Failed => state.after_failure(),
    }
}

/// The state behind the first `n` of `events`.
pub open spec fn state_behind(state: DsmState, events: Seq<KekEvent>, n: nat) -> DsmState
    decreases n,
{
    if n == 0 {
        state
    } else {
        after_event(state_behind(state, events, (n - 1) as nat), events[n - 1])
    }
}

/// The KEK that an event settles on for its layer, if it does so.
pub open spec fn settled_kek(state: DsmState, event: KekEvent) -> Option<Seq<u8>> {
    match event {
        KekEvent::Wanted(name) => match state.new_kek_plan(name) {
            KekPlan::Use(uuid) => Some(uuid),
            _ => None,
        },
        KekEvent::Created(uuid) => Some(state.kek_after_creation(uuid)),
        KekEvent::Failed => None,
    }
}

/// In `KekMode::Shared` a KEK that is settled on stays, whatever follows.
proof fn shared_kek_stays(
    state: DsmState,
    events: Seq<KekEvent>,
    i: nat,
    j: nat,
)
    requires
        state.kek_mode == KekMode::Shared,
        i < j <= events.len(),
    ensures
        state_behind(state, events, i).kek_mode == KekMode::Shared,
        state_behind(state, events, j).kek_mode == KekMode::Shared,
        settled_kek(state_behind(state, events, i), events[i as int]) matches Some(uuid)
            ==> state_behind(state, events, j).shared_kek == SharedState::Ready(uuid),
    decreases j,
{
    if i + 1 == j {
        if i > 0 {
            shared_kek_stays(state, events, (i - 1) as nat, i);
        }
    } else {
        shared_kek_stays(state, events, i, (j - 1) as nat);
    }
}

/// In `KekMode::Shared` all layers that name no KEK use the same one, in whatever order they
/// come and DSM answers.
pub proof fn shared_layers_use_one_kek(state: DsmState, events: Seq<KekEvent>, i: nat, j: nat)
    requires
        state.kek_mode == KekMode::Shared,
        i < j < events.len(),
        settled_kek(state_behind(state, events, i), events[i as int]) is Some,
        settled_kek(state_behind(state, events, j), events[j as int]) is Some,
    ensures
        settled_kek(state_behind(state, events, i), events[i as int]) == settled_kek(
            state_behind(state, events, j),
            events[j as int],
        ),
{
    shared_kek_stays(state, events, i, j);
}

/// How many KEKs DSM has been asked to create by the first `n` of `events` and has not answered
/// for.
pub open spec fn outstanding(state: DsmState, events: Seq<KekEvent>, n: nat) -> int
    decreases n,
{
    if n == 0 {
        0
    } else {
        let m = (n - 1) as nat;
        match events[n - 1] {
            KekEvent::Wanted(name) => if state_behind(state, events, m).new_kek_plan(
                name,
            ) is Create {
                outstanding(state, events, m) + 1
            } else {
                outstanding(state, events, m)
            },
            _ => outstanding(state, events, m) - 1,
        }
    }
}

/// Whether DSM answers only for KEKs that it has been asked to create, and once for each.
pub open spec fn answers_are_asked_for(state: DsmState, events: Seq<KekEvent>) -> bool {
    forall|n: nat|
        n < events.len() && events[n as int] !is Wanted ==> #[trigger] outstanding(
            state,
            events,
            n,
        ) > 0
}

/// In `KekMode::Shared`, whatever order calls come and DSM answers in, no two KEKs are being
/// created at the same time: a layer plans to create one only where none is outstanding. The
/// counter of layers is never used.
pub proof fn shared_creations_do_not_overlap(state: DsmState, events: Seq<KekEvent>, n: nat)
    requires
        state.kek_mode == KekMode::Shared,
        state.shared_kek == SharedState::Absent,
        answers_are_asked_for(state, events),
        n <= events.len(),
    ensures
        ({
            let now = state_behind(state, events, n);
            &&& 0 <= outstanding(state, events, n) <= 1
            &&& outstanding(state, events, n) == 1 <==> now.shared_kek == SharedState::Creating
            &&& forall|name: Option<Seq<char>>|
                (#[trigger] now.new_kek_plan(name)) is Create ==> outstanding(state, events, n)
                    == 0
            &&& now.kek_mode == KekMode::Shared
            &&& now.layer_seq == state.layer_seq
        }),
    decreases n,
{
    if n > 0 {
        let m = (n - 1) as nat;
        shared_creations_do_not_overlap(state, events, m);
        assert(events[m as int] !is Wanted ==> outstanding(state, events, m) > 0);
    }
}

/// In `KekMode::Shared` at most one KEK is created: once DSM has created one, nothing more is
/// asked of it for a KEK and no other one is created. Every later layer that names no KEK uses
/// that one, whatever name it wants.
pub proof fn shared_kek_is_created_once(
    state: DsmState,
    events: Seq<KekEvent>,
    i: nat,
    j: nat,
    uuid: Seq<u8>,
)
    requires
        state.kek_mode == KekMode::Shared,
        state.shared_kek == SharedState::Absent,
        answers_are_asked_for(state, events),
        i < j < events.len(),
        events[i as int] == KekEvent::Created(uuid),
    ensures
        state_behind(state, events, j).shared_kek == SharedState::Ready(uuid),
        outstanding(state, events, j) == 0,
        events[j as int] matches KekEvent::Wanted(name) && state_behind(
            state,
            events,
            j,
        ).new_kek_plan(name) == KekPlan::Use(uuid),
{
    shared_creations_do_not_overlap(state, events, i);
    shared_creations_do_not_overlap(state, events, j);
    assert(events[i as int] !is Wanted ==> outstanding(state, events, i) > 0);
    assert(settled_kek(state_behind(state, events, i), events[i as int]) == Some(uuid));
    shared_kek_stays(state, events, i, j);
    assert(events[j as int] !is Wanted ==> outstanding(state, events, j) > 0);
}

/// How far the counter has moved between two events: at most by one for each.
proof fn counter_moves(state: DsmState, events: Seq<KekEvent>, i: nat, j: nat) -> (moved: nat)
    requires
        state.kek_mode == KekMode::PerLayer,
        state.layer_seq <= usize::MAX,
        i <= j <= events.len(),
    ensures
        moved <= j - i,
        i < j && events[i as int] is Wanted && events[i as int]->Wanted_0 is Some ==> moved > 0,
        ({
            let from = state_behind(state, events, i);
            let to = state_behind(state, events, j);
            &&& from.kek_mode == KekMode::PerLayer
            &&& to.kek_mode == KekMode::PerLayer
            &&& from.layer_seq <= usize::MAX
            &&& to.layer_seq <= usize::MAX
            &&& moved <= usize::MAX ==> to.layer_seq == from.layer_seq + moved || to.layer_seq
                == from.layer_seq + moved - usize::MAX - 1
        }),
    decreases j,
{
    if i == j {
        if j > 0 {
            counter_moves(state, events, (j - 1) as nat, (j - 1) as nat);
        }
        0
    } else {
        let before = counter_moves(state, events, i, (j - 1) as nat);
        match events[j - 1] {
            KekEvent::Wanted(Some(_)) => before + 1,
            _ => before,
        }
    }
}

/// In `KekMode::PerLayer` every layer that names no KEK gets a new one, and no two of those that
/// want names get the same name, unless so much happens between them that the counter starts
/// over.
pub proof fn per_layer_names_are_distinct(
    state: DsmState,
    events: Seq<KekEvent>,
    i: nat,
    j: nat,
    a: Seq<char>,
    b: Seq<char>,
)
    requires
        state.kek_mode == KekMode::PerLayer,
        state.layer_seq <= usize::MAX,
        i < j < events.len(),
        j - i <= usize::MAX,
        events[i as int] == KekEvent::Wanted(Some(a)),
        events[j as int] == KekEvent::Wanted(Some(b)),
    ensures
        ({
            let first = state_behind(state, events, i).new_kek_plan(Some(a));
            let second = state_behind(state, events, j).new_kek_plan(Some(b));
            &&& first matches KekPlan::Create(Some(x))
            &&& second matches KekPlan::Create(Some(y))
            &&& x != y
        }),
{
    counter_moves(state, events, i, j);
    layer_names_differ(
        a,
        state_behind(state, events, i).layer_seq,
        b,
        state_behind(state, events, j).layer_seq,
    );
}

/// Which requests are answered that they are at fault: one is told `Code::InvalidArgument` exactly
/// if it is not UTF-8, is not parsed, or lacks the key, the parameters, or those of the
/// attestation agent. A request with none of these faults is told `Code::Aborted` exactly if its
/// key is not base64.
pub proof fn faults_of_requests(
    bytes: Seq<u8>,
    parsed: Result<KeyWrapParams, String>,
    kbs: Option<Seq<char>>,
    before: DsmState,
    step: Result<WrapStep, WrapError>,
    after: DsmState,
)
    requires
        valid_utf8(bytes) ==> key_provider::wraps(kbs, before, parsed, step, after),
    ensures
        ({
            let told = if !valid_utf8(bytes) {
                Some(Code::InvalidArgument)
            } else if step is Err {
                Some(step->Err_0.code())
            } else {
                None
            };
            let invalid = {
                ||| !valid_utf8(bytes)
                ||| parsed is Err
                ||| parsed->Ok_0.optsdata is None
                ||| parsed->Ok_0.ec is None
                ||| key_provider::entry(
                    parsed->Ok_0.ec->0.parameters@,
                    key_provider::ATTESTATION_AGENT@,
                ) is None
            };
            &&& told == Some(Code::InvalidArgument) <==> invalid
            &&& !invalid ==> (told == Some(Code::Aborted) <==> codec::base64_bytes(
                parsed->Ok_0.optsdata->0@,
            ) is None)
        }),
{
}

/// A `keyid` is a DSM kid exactly if it starts with `kbs:///dsm/`. Its tag is what follows
/// `kbs:///dsm/key/`, or else what follows the shorter start; nothing is lost of it.
pub proof fn kid_is_start_and_tag(id: Seq<char>)
    ensures
        match kek::kid_tag(id) {
            Some(tag) => id == "kbs:///dsm/key/"@ + tag || id == "kbs:///dsm/"@ + tag
                && !"key/"@.is_prefix_of(tag),
            None => !"kbs:///dsm/"@.is_prefix_of(id),
        },
{
    reveal_strlit("kbs:///dsm/key/");
    reveal_strlit("kbs:///dsm/");
    reveal_strlit("key/");
    let long = "kbs:///dsm/key/"@;
    let short = "kbs:///dsm/"@;
    if long.is_prefix_of(id) {
        assert(id =~= long + id.skip(15));
    } else if short.is_prefix_of(id) {
        let tag = id.skip(11);
        assert(id =~= short + tag);
        if "key/"@.is_prefix_of(tag) {
            assert(short + "key/"@ =~= long);
            assert(id.subrange(0, 15) =~= short + tag.subrange(0, 4));
        }
    }
}

/// Of the fields of a parameter, parted by `::`, the first that reads `keyid=` gives the `keyid`:
/// all that follows. Where none does, there is none.
pub proof fn first_keyid_counts(parameter: Seq<char>, i: int)
    ensures
        ({
            let fields = text::pieces(parameter, "::"@);
            &&& 0 <= i < fields.len() && "keyid="@.is_prefix_of(fields[i]) && (forall|j: int|
                0 <= j < i ==> !"keyid="@.is_prefix_of(#[trigger] fields[j]))
                ==> kek::keyid_field(parameter) == Some(fields[i].skip(6))
            &&& (forall|j: int|
                0 <= j < fields.len() ==> !"keyid="@.is_prefix_of(#[trigger] fields[j]))
                ==> kek::keyid_field(parameter) is None
        }),
{
    let fields = text::pieces(parameter, "::"@);
    if 0 <= i < fields.len() && "keyid="@.is_prefix_of(fields[i]) && (forall|j: int|
        0 <= j < i ==> !"keyid="@.is_prefix_of(#[trigger] fields[j])) {
        first_keyid_at(fields, i);
    }
    if forall|j: int| 0 <= j < fields.len() ==> !"keyid="@.is_prefix_of(#[trigger] fields[j]) {
        no_keyid_at(fields);
    }
}

/// A field gives a `keyid` exactly if it starts with `keyid=`.
#[verifier::spinoff_prover]
proof fn keyid_field_starts(field: Seq<char>)
    ensures
        "keyid="@.is_prefix_of(field) ==> text::divided(field, "="@) == Some(
            ("keyid"@, field.skip(6)),
        ),
        text::divided(field, "="@) matches Some((key, _)) && key == "keyid"@
            ==> "keyid="@.is_prefix_of(field),
{
    reveal_strlit("keyid=");
    reveal_strlit("keyid");
    reveal_strlit("=");
    if "keyid="@.is_prefix_of(field) {
        let tail = field.skip(6);
        assert(field =~= "keyid="@ + tail);
        assert("keyid="@ =~= "keyid"@ + "="@);
        assert(!"keyid"@.contains('='));
        assert(text::divided(field, "="@) == Some(("keyid"@, tail))) by {
            text::divided_behind("keyid"@, "="@, tail);
        }
    } else if text::divided(field, "="@) matches Some((key, tail)) && key == "keyid"@ {
        let (key, tail) = text::divided(field, "="@)->0;
        assert(key + "="@ + tail == field) by {
            text::divided_at_the_first(field, "="@);
        }
        assert(field.subrange(0, 6) =~= "keyid="@);
    }
}

#[verifier::spinoff_prover]
proof fn first_keyid_at(fields: Seq<Seq<char>>, i: int)
    requires
        0 <= i < fields.len(),
        "keyid="@.is_prefix_of(fields[i]),
        forall|j: int| 0 <= j < i ==> !"keyid="@.is_prefix_of(#[trigger] fields[j]),
    ensures
        kek::first_keyid(fields) == Some(fields[i].skip(6)),
    decreases i,
{
    keyid_field_starts(fields[0]);
    if i > 0 {
        assert(fields.drop_first()[i - 1] == fields[i]);
        first_keyid_at(fields.drop_first(), i - 1);
    }
}

#[verifier::spinoff_prover]
proof fn no_keyid_at(fields: Seq<Seq<char>>)
    requires
        forall|j: int| 0 <= j < fields.len() ==> !"keyid="@.is_prefix_of(#[trigger] fields[j]),
    ensures
        kek::first_keyid(fields) is None,
    decreases fields.len(),
{
    if fields.len() > 0 {
        keyid_field_starts(fields[0]);
        assert forall|j: int| 0 <= j < fields.drop_first().len() implies !"keyid="@.is_prefix_of(
            #[trigger] fields.drop_first()[j],
        ) by {
            assert(fields.drop_first()[j] == fields[j + 1]);
        }
        no_keyid_at(fields.drop_first());
    }
}

/// Only the first parameter of a layer is looked at.
pub proof fn first_parameter_counts(
    parameter: Seq<char>,
    more: Seq<Seq<char>>,
    others: Seq<Seq<char>>,
)
    ensures
        kek::requested_keyid(seq![parameter] + more) == kek::keyid_field(parameter),
        kek::requested_keyid(seq![parameter] + more) == kek::requested_keyid(
            seq![parameter] + others,
        ),
        kek::requested_keyid(Seq::empty()) is None,
{
}

/// What the `keyid` of a layer decides. The kid of a DSM KEK, in either form and with its UUID in
/// any spelling, selects that KEK; one without a UUID, and any other resource of the key broker, is
/// refused; neither changes the provider. Any other text is the name wanted for a new KEK, before
/// the configured one; an empty one is not.
#[verifier::spinoff_prover]
pub proof fn keyid_decides(state: DsmState, params: Seq<Seq<char>>, id: Seq<char>, tag: Seq<char>)
    requires
        kek::requested_keyid(params) == Some(id),
    ensures
        ({
            let plan = wrap::layer_plan(state, params);
            let after = wrap::after_layer(state, params);
            &&& id == "kbs:///dsm/key/"@ + tag || id == "kbs:///dsm/"@ + tag
                && !"key/"@.is_prefix_of(tag) ==> {
                &&& forall|uuid: Seq<u8>| #[trigger]
                    key_uuid::spells_uuid(tag, uuid) ==> plan == Some(KekPlan::Use(uuid))
                &&& (forall|uuid: Seq<u8>| !#[trigger] key_uuid::spells_uuid(tag, uuid))
                    ==> plan is None
                &&& after == state
            }
            &&& "kbs:///"@.is_prefix_of(id) && !"kbs:///dsm/"@.is_prefix_of(id) ==> plan is None
                && after == state
            &&& !"kbs:///"@.is_prefix_of(id) && id.len() > 0 ==> plan == Some(
                state.new_kek_plan(Some(id)),
            ) && after == state.after_new_kek(Some(id))
            &&& id.len() == 0 ==> plan == Some(state.new_kek_plan(state.kek_name)) && after
                == state.after_new_kek(state.kek_name)
        }),
{
    reveal_strlit("kbs:///dsm/key/");
    reveal_strlit("kbs:///dsm/");
    reveal_strlit("kbs:///");
    either_kid_is_read(tag);
    kid_is_start_and_tag(id);
    if kek::kid_tag(id) is Some {
        let t = kek::kid_tag(id)->0;
        assert(id.subrange(0, 7) =~= "kbs:///"@);
        assert forall|uuid: Seq<u8>| #[trigger] key_uuid::spells_uuid(t, uuid) implies key_uuid::uuid_bytes(
            t,
        ) == Some(uuid) by {
            key_uuid::uuid_bytes_are_all(t, uuid);
        }
        if key_uuid::uuid_bytes(t) is Some {
            key_uuid::uuid_bytes_are_all(t, key_uuid::uuid_bytes(t)->0);
        }
    }
    if "kbs:///"@.is_prefix_of(id) && !"kbs:///dsm/"@.is_prefix_of(id) {
        if kek::kid_tag(id) is Some {
            let t = kek::kid_tag(id)->0;
            if id == "kbs:///dsm/key/"@ + t {
                assert(id.subrange(0, 11) =~= "kbs:///dsm/"@);
            } else {
                assert(id.subrange(0, 11) =~= "kbs:///dsm/"@);
            }
        }
    }
}

/// Without a `keyid` the configured name is wanted for a new KEK, if there is one.
pub proof fn no_keyid_decides(state: DsmState, params: Seq<Seq<char>>)
    requires
        kek::requested_keyid(params) is None,
    ensures
        wrap::layer_plan(state, params) == Some(state.new_kek_plan(state.kek_name)),
        wrap::after_layer(state, params) == state.after_new_kek(state.kek_name),
{
}

/// A `keyid` that is refused is refused with itself: as the kid of a DSM KEK without a UUID, or as
/// a resource of the key broker outside DSM. A layer without one is never refused.
pub proof fn refused_keyid_is_named(
    keyid: Option<Seq<char>>,
    configured: Option<Seq<char>>,
    error: DsmError,
)
    requires
        kek::chosen(keyid, configured, Err(error)),
    ensures
        keyid matches Some(id) && match error {
            DsmError::InvalidUuid { keyid: named, .. } => named@ == id && "kbs:///dsm/"@.is_prefix_of(
                id,
            ),
            DsmError::KbsStyleKeyId { keyid: named } => {
                &&& named@ == id
                &&& "kbs:///"@.is_prefix_of(id)
                &&& !"kbs:///dsm/"@.is_prefix_of(id)
            },
            _ => false,
        },
{
    reveal_strlit("kbs:///dsm/key/");
    reveal_strlit("kbs:///dsm/");
    let id = keyid->0;
    kid_is_start_and_tag(id);
    if kek::kid_tag(id) is Some {
        assert(id.subrange(0, 11) =~= "kbs:///dsm/"@);
    } else if "kbs:///dsm/"@.is_prefix_of(id) {
        assert(false);
    }
}

/// A `keyid` is reported as a kid of two segments exactly if it is `kbs:///dsm/` and a UUID.
#[verifier::spinoff_prover]
pub proof fn legacy_keyid_is_reported(id: Seq<char>)
    ensures
        kek::legacy_keyid(None) is None,
        kek::legacy_keyid(Some(id)) == (if exists|tag: Seq<char>, uuid: Seq<u8>|
            id == "kbs:///dsm/"@ + tag && !"key/"@.is_prefix_of(tag)
                && #[trigger] key_uuid::spells_uuid(tag, uuid) {
            Some(id)
        } else {
            None
        }),
{
    reveal_strlit("kbs:///dsm/key/");
    reveal_strlit("kbs:///dsm/");
    reveal_strlit("key/");
    kid_is_start_and_tag(id);
    if exists|tag: Seq<char>, uuid: Seq<u8>|
        id == "kbs:///dsm/"@ + tag && !"key/"@.is_prefix_of(tag) && #[trigger] key_uuid::spells_uuid(
            tag,
            uuid,
        ) {
        let (tag, uuid) = choose|tag: Seq<char>, uuid: Seq<u8>|
            id == "kbs:///dsm/"@ + tag && !"key/"@.is_prefix_of(tag)
                && #[trigger] key_uuid::spells_uuid(tag, uuid);
        either_kid_is_read(tag);
        key_uuid::uuid_bytes_are_all(tag, uuid);
        if kek::KID_PREFIX@.is_prefix_of(id) {
            assert(id =~= kek::KID_PREFIX@ + id.skip(15));
            assert(id.skip(11) =~= tag);
            assert(tag.subrange(0, 4) =~= id.subrange(11, 15));
            assert(id.subrange(0, 15).subrange(11, 15) =~= id.subrange(11, 15));
            assert("key/"@ =~= kek::KID_PREFIX@.subrange(11, 15));
        }
    } else if kek::legacy_keyid(Some(id)) is Some {
        let tag = kek::kid_tag(id)->0;
        key_uuid::uuid_bytes_are_all(tag, key_uuid::uuid_bytes(tag)->0);
        if id == "kbs:///dsm/key/"@ + tag {
            assert(id.subrange(0, 15) =~= kek::KID_PREFIX@);
        }
    }
}

/// What a provider is configured with never changes.
pub proof fn configuration_stays(
    state: DsmState,
    params: Seq<Seq<char>>,
    name: Option<Seq<char>>,
    uuid: Seq<u8>,
)
    ensures
        same_configuration(state, wrap::after_layer(state, params)),
        same_configuration(state, state.after_new_kek(name)),
        same_configuration(state, state.after_creation(uuid)),
        same_configuration(state, state.after_failure()),
{
}

/// Whether two states are those of providers with the same configuration.
pub open spec fn same_configuration(a: DsmState, b: DsmState) -> bool {
    &&& a.endpoint == b.endpoint
    &&& a.api_key == b.api_key
    &&& a.kek_mode == b.kek_mode
    &&& a.kek_name == b.kek_name
}

/// In `KekMode::PerLayer` every layer that names no KEK gets a new one, in any state and whether or
/// not it wants a name. A name that is wanted is followed by a hyphen and the number of the layer;
/// without one, none is given. What DSM has created before plays no part.
pub proof fn per_layer_always_creates(
    state: DsmState,
    name: Option<Seq<char>>,
    uuid: Seq<u8>,
)
    requires
        state.kek_mode == KekMode::PerLayer,
    ensures
        match name {
            Some(n) => {
                &&& state.new_kek_plan(name) matches KekPlan::Create(Some(full))
                &&& full.len() > n.len() + 1
                &&& full.take(n.len() as int) == n
                &&& full[n.len() as int] == '-'
                &&& text::value(full.skip(n.len() + 1int)) == state.layer_seq
            },
            None => state.new_kek_plan(name) == KekPlan::Create(None),
        },
        state.kek_after_creation(uuid) == uuid,
        state.after_creation(uuid).new_kek_plan(name) == state.new_kek_plan(name),
        state.after_failure().new_kek_plan(name) == state.new_kek_plan(name),
{
    reveal_strlit("-");
    if let Some(n) = name {
        let full = wrap::layer_name(n, state.layer_seq);
        text::decimal_reads_back(state.layer_seq);
        assert(full.take(n.len() as int) =~= n);
        assert(full.skip(n.len() + 1int) =~= text::decimal(state.layer_seq));
    }
}

/// In `KekMode::PerLayer` no two layers that name no KEK share one, unless DSM hands the same UUID
/// out twice: a layer settles on a KEK only when one is created for it, and on that one.
pub proof fn per_layer_keks_are_not_shared(
    state: DsmState,
    events: Seq<KekEvent>,
    i: nat,
    j: nat,
    uuid: Seq<u8>,
)
    requires
        state.kek_mode == KekMode::PerLayer,
        i < j < events.len(),
        settled_kek(state_behind(state, events, i), events[i as int]) == Some(uuid),
        settled_kek(state_behind(state, events, j), events[j as int]) == Some(uuid),
    ensures
        events[i as int] == KekEvent::Created(uuid),
        events[j as int] == KekEvent::Created(uuid),
{
    mode_stays(state, events, i);
    mode_stays(state, events, j);
    assert forall|n: nat, name: Option<Seq<char>>|
        state_behind(state, events, n).kek_mode == KekMode::PerLayer implies (
    #[trigger] state_behind(state, events, n).new_kek_plan(name)) is Create by {
        per_layer_always_creates(state_behind(state, events, n), name, uuid);
    }
}

/// In `KekMode::PerLayer` a created KEK is used by the layer it was created for.
pub proof fn created_kek_is_used(state: DsmState, events: Seq<KekEvent>, n: nat, uuid: Seq<u8>)
    requires
        state.kek_mode == KekMode::PerLayer,
        n < events.len(),
        events[n as int] == KekEvent::Created(uuid),
    ensures
        settled_kek(state_behind(state, events, n), events[n as int]) == Some(uuid),
{
    mode_stays(state, events, n);
}

proof fn mode_stays(state: DsmState, events: Seq<KekEvent>, n: nat)
    ensures
        same_configuration(state, state_behind(state, events, n)),
    decreases n,
{
    if n > 0 {
        mode_stays(state, events, (n - 1) as nat);
    }
}

/// How many of the first `n` events are layers that want a name.
pub open spec fn named_layers(events: Seq<KekEvent>, n: nat) -> nat
    decreases n,
{
    if n == 0 {
        0
    } else if events[n - 1] is Wanted && events[n - 1]->Wanted_0 is Some {
        named_layers(events, (n - 1) as nat) + 1
    } else {
        named_layers(events, (n - 1) as nat)
    }
}

/// In `KekMode::PerLayer` the layers that want names are numbered from zero, one after the other.
pub proof fn layers_are_numbered(state: DsmState, events: Seq<KekEvent>, n: nat)
    requires
        state.kek_mode == KekMode::PerLayer,
        state.layer_seq == 0,
        n <= events.len(),
        n <= usize::MAX,
    ensures
        state_behind(state, events, n).layer_seq == named_layers(events, n),
        named_layers(events, n) <= n,
    decreases n,
{
    if n > 0 {
        layers_are_numbered(state, events, (n - 1) as nat);
        mode_stays(state, events, (n - 1) as nat);
    }
}

/// A layer keeps its whole key and its KEK from step to step: what is handed to DSM is that key
/// and, once there is one, that KEK, and what is kept back is the same.
pub proof fn step_keeps_the_key(step: LayerStep, plan: KekPlan, key: Seq<u8>)
    requires
        step.follows(plan, key),
    ensures
        match step {
            LayerStep::CreateKek(pending, request) => {
                &&& pending@ == key
                &&& request.asks_for_kek()
                &&& plan matches KekPlan::Create(name)
                &&& name is Some ==> request.name@ == name->0
            },
            LayerStep::Encrypt(pending, request) => {
                &&& plan == KekPlan::Use(pending@.0)
                &&& pending@.1 == key.len()
                &&& request.key@ == pending@.0
                &&& request.plain@ == key
            },
            LayerStep::Wait(waiting) => {
                &&& waiting@.0 == key
                &&& plan == KekPlan::Wait(waiting@.1)
            },
        },
{
}

/// The endpoint is the URI without what stands around it: white space on either side, and then any
/// slashes behind it.
pub proof fn endpoint_is_the_core(
    before: Seq<char>,
    core: Seq<char>,
    slashes: Seq<char>,
    behind: Seq<char>,
    configured: Option<Seq<char>>,
)
    requires
        forall|i: int| 0 <= i < before.len() ==> text::is_white_space(#[trigger] before[i]),
        forall|i: int| 0 <= i < behind.len() ==> text::is_white_space(#[trigger] behind[i]),
        forall|i: int| 0 <= i < slashes.len() ==> (#[trigger] slashes[i]) == '/',
        core.len() > 0 ==> !text::is_white_space(core.first()) && core.last() != '/',
        core.len() > 0 && slashes.len() == 0 ==> !text::is_white_space(core.last()),
    ensures
        ccm_kbc::endpoint_of(before + (core + slashes) + behind, configured) == if core.len() > 0 {
            Some(core)
        } else {
            configured
        },
{
    let inner = core + slashes;
    if inner.len() > 0 {
        if core.len() == 0 {
            assert(inner.first() == slashes[0]);
        } else {
            assert(inner.first() == core.first());
        }
        if slashes.len() > 0 {
            assert(inner.last() == slashes[slashes.len() - 1]);
        } else {
            assert(inner.last() == core.last());
        }
    }
    text::trimmed_to_the_core(before, inner, behind);
    text::slashes_go(core, slashes);
}

/// Every URI can be taken apart in that way.
pub proof fn every_uri_has_a_core(uri: Seq<char>) -> (parts: (
    Seq<char>,
    Seq<char>,
    Seq<char>,
    Seq<char>,
))
    ensures
        uri == parts.0 + (parts.1 + parts.2) + parts.3,
        parts.1 == ccm_kbc::uri_endpoint(uri),
        forall|i: int| 0 <= i < parts.0.len() ==> text::is_white_space(#[trigger] parts.0[i]),
        forall|i: int| 0 <= i < parts.2.len() ==> (#[trigger] parts.2[i]) == '/',
        forall|i: int| 0 <= i < parts.3.len() ==> text::is_white_space(#[trigger] parts.3[i]),
        parts.1.len() > 0 ==> parts.1.last() != '/',
{
    let (before, behind) = text::trimmed_is_part(uri);
    let slashes = trailing_slashes(text::trimmed(uri));
    (before, ccm_kbc::uri_endpoint(uri), slashes, behind)
}

proof fn trailing_slashes(all: Seq<char>) -> (slashes: Seq<char>)
    ensures
        all == text::without_trailing_slashes(all) + slashes,
        forall|i: int| 0 <= i < slashes.len() ==> (#[trigger] slashes[i]) == '/',
        text::without_trailing_slashes(all).len() > 0 ==> text::without_trailing_slashes(
            all,
        ).last() != '/',
    decreases all.len(),
{
    if all.len() > 0 && all.last() == '/' {
        let before = trailing_slashes(all.drop_last());
        let slashes = before.push('/');
        assert(all =~= all.drop_last().push('/'));
        assert(text::without_trailing_slashes(all) == text::without_trailing_slashes(
            all.drop_last(),
        ));
        assert(all =~= text::without_trailing_slashes(all) + slashes);
        slashes
    } else {
        assert(all + Seq::<char>::empty() =~= all);
        Seq::empty()
    }
}

/// The initialisation vector and the tag that go to DSM are the whole of what the annotations hold
/// in base64, each its own, and there are none unless both are there and are base64.
pub proof fn crypt_bytes_are_all(
    fields: Map<Seq<char>, Result<Seq<char>, Seq<char>>>,
    iv: Seq<u8>,
    tag: Seq<u8>,
)
    ensures
        ccm_kbc::crypt_bytes(fields) == Ok::<_, Seq<char>>((iv, tag)) <==> {
            &&& fields.contains_pair("iv"@, Ok(codec::base64_text(iv)))
            &&& fields.contains_pair("tag"@, Ok(codec::base64_text(tag)))
        },
{
    annotation::both_fields_are_taken(fields);
    if let Ok((i, t)) = annotation::crypt_fields(fields) {
        codec::base64_bytes_are_all(i, iv);
        codec::base64_bytes_are_all(t, tag);
        if codec::base64_bytes(i) is Some {
            codec::base64_bytes_are_all(i, codec::base64_bytes(i)->0);
        }
        if codec::base64_bytes(t) is Some {
            codec::base64_bytes_are_all(t, codec::base64_bytes(t)->0);
        }
    }
}

/// The parameters of a provider are those of the first entry under its name, and there are none
/// exactly if no entry has that name.
pub proof fn first_entry_counts(parameters: Seq<(String, Vec<String>)>, name: Seq<char>, i: int)
    requires
        0 <= i < parameters.len(),
        forall|j: int| 0 <= j < i ==> (#[trigger] parameters[j]).0@ != name,
    ensures
        parameters[i].0@ == name ==> key_provider::entry(parameters, name) == Some(
            parameters[i].1@,
        ),
        parameters[i].0@ != name && i == parameters.len() - 1 ==> key_provider::entry(
            parameters,
            name,
        ) is None,
        key_provider::entry(Seq::empty(), name) is None,
    decreases i,
{
    if i > 0 {
        let rest = parameters.drop_first();
        assert(parameters[0].0@ != name);
        assert forall|j: int| 0 <= j < i - 1 implies (#[trigger] rest[j]).0@ != name by {
            assert(rest[j] == parameters[j + 1]);
        }
        first_entry_counts(rest, name, i - 1);
    } else if parameters.len() == 1 {
        assert(parameters.drop_first() =~= Seq::empty());
    }
}

/// Parameters are read one by one and in order: a text comes back whole from the base64 of its
/// UTF-8, what is not such is left out, and the parameters of two lists are those of both.
#[verifier::spinoff_prover]
pub proof fn parameters_are_read_one_by_one(
    a: Seq<Seq<char>>,
    b: Seq<Seq<char>>,
    t: Seq<char>,
    other: Seq<char>,
)
    ensures
        key_provider::parameter_texts(a + b) == key_provider::parameter_texts(a)
            + key_provider::parameter_texts(b),
        key_provider::parameter_texts(seq![codec::base64_text(encode_utf8(t))]) == seq![t],
        (forall|bytes: Seq<u8>| valid_utf8(bytes) ==> #[trigger] codec::base64_text(bytes) != other)
            ==> key_provider::parameter_texts(seq![other]) == Seq::<Seq<char>>::empty(),
        key_provider::parameter_texts(Seq::empty()) == Seq::<Seq<char>>::empty(),
    decreases b.len(),
{
    reveal_with_fuel(key_provider::parameter_texts, 2);
    assert(seq![other].drop_last() =~= Seq::<Seq<char>>::empty());
    let encoded = codec::base64_text(encode_utf8(t));
    assert(seq![encoded].drop_last() =~= Seq::<Seq<char>>::empty());
    encode_utf8_valid_utf8(t);
    encode_utf8_decode_utf8(t);
    codec::base64_round_trip(encode_utf8(t));
    assert(key_provider::parameter_texts(seq![encoded]) =~= seq![t]);
    if codec::base64_bytes(other) is Some {
        codec::base64_bytes_are_all(other, codec::base64_bytes(other)->0);
    }
    if b.len() > 0 {
        assert((a + b).drop_last() =~= a + b.drop_last());
        parameters_are_read_one_by_one(a, b.drop_last(), t, other);
        assert(key_provider::parameter_texts(a + b) =~= key_provider::parameter_texts(a)
            + key_provider::parameter_texts(b));
    } else {
        assert(a + b =~= a);
        assert(key_provider::parameter_texts(a) + key_provider::parameter_texts(b)
            =~= key_provider::parameter_texts(a));
    }
}

/// The key that a request without faults asks to wrap is the whole of what its `optsdata` encodes,
/// and its parameters are those of the attestation agent.
pub proof fn whole_key_is_asked_for(parsed: Result<KeyWrapParams, String>)
    ensures
        key_provider::asked(parsed) matches Ok((key, texts)) ==> {
            &&& parsed matches Ok(input)
            &&& input.optsdata matches Some(optsdata)
            &&& codec::base64_text(key) == optsdata@
            &&& input.ec matches Some(ec)
            &&& key_provider::entry(ec.parameters@, "attestation-agent"@) matches Some(parameters)
            &&& texts == key_provider::parameter_texts(text::texts(parameters))
        },
{
    if let Ok((key, _)) = key_provider::asked(parsed) {
        codec::base64_bytes_are_all(parsed->Ok_0.optsdata->0@, key);
    }
}

/// Whoever wraps a key gets the whole of it, and the parameters of its request: DSM, in whatever
/// step, or the key broker at its own address. DSM wraps exactly where both an endpoint and an API
/// key are configured, and is asked there and with that key.
pub proof fn whole_key_is_handed_on(
    parsed: Result<KeyWrapParams, String>,
    kbs: Option<Seq<char>>,
    before: DsmState,
    step: WrapStep,
    after: DsmState,
)
    requires
        key_provider::wraps(kbs, before, parsed, Ok(step), after),
    ensures
        parsed is Ok,
        parsed->Ok_0.optsdata is Some,
        ({
            let optsdata = parsed->Ok_0.optsdata->0@;
            match step {
                WrapStep::Dsm { endpoint, api_key, legacy_keyid, step: layer } => {
                    &&& before.endpoint == Some(endpoint@)
                    &&& before.api_key == Some(api_key@)
                    &&& legacy_keyid matches Some(id) ==> "kbs:///dsm/"@.is_prefix_of(id@)
                    &&& match layer {
                        LayerStep::CreateKek(pending, _) => codec::base64_text(pending@)
                            == optsdata,
                        LayerStep::Encrypt(pending, request) => {
                            &&& codec::base64_text(request.plain@) == optsdata
                            &&& pending@ == (request.key@, request.plain@.len())
                        },
                        LayerStep::Wait(waiting) => codec::base64_text(waiting@.0) == optsdata,
                    }
                },
                WrapStep::Kbs { kbs: broker, optsdata: key, params } => {
                    &&& before.endpoint is None || before.api_key is None
                    &&& match broker {
                        Some(url) => kbs == Some(url@),
                        None => kbs is None,
                    }
                    &&& codec::base64_text(key@) == optsdata
                    &&& key_provider::asked(parsed) matches Ok((_, texts))
                    &&& params@.len() == texts.len()
                    &&& forall|i: int| 0 <= i < texts.len() ==> (#[trigger] params@[i])@ == texts[i]
                },
            }
        }),
{
    whole_key_is_asked_for(parsed);
    let (key, texts) = key_provider::asked(parsed)->Ok_0;
    match step {
        WrapStep::Dsm { legacy_keyid, step: layer, .. } => {
            step_keeps_the_key(layer, wrap::layer_plan(before, texts)->0, key);
            if let Some(id) = legacy_keyid {
                reveal_strlit("kbs:///dsm/");
                legacy_keyid_is_reported(id@);
                let tag = id@.skip(11);
                assert(id@.subrange(0, 11) =~= "kbs:///dsm/"@);
            }
        },
        WrapStep::Kbs { params, .. } => {
            text::texts_of_each(params@, None);
        },
    }
}

/// A request without faults is wrapped where DSM does not refuse its `keyid`, and always by the key
/// broker.
pub proof fn faultless_request_is_wrapped(
    parsed: Result<KeyWrapParams, String>,
    kbs: Option<Seq<char>>,
    before: DsmState,
    step: Result<WrapStep, WrapError>,
    after: DsmState,
)
    requires
        key_provider::wraps(kbs, before, parsed, step, after),
        key_provider::asked(parsed) is Ok,
    ensures
        before.endpoint is None || before.api_key is None ==> step is Ok && after == before,
        before.endpoint is Some && before.api_key is Some ==> {
            let texts = key_provider::asked(parsed)->Ok_0.1;
            &&& step is Ok <==> wrap::layer_plan(before, texts) is Some
            &&& step is Err ==> step->Err_0 is Dsm
            &&& after == wrap::after_layer(before, texts)
        },
{
}

/// Each complaint about DSM says what it is about: the `keyid` as it stands, or the lengths in
/// decimal.
pub proof fn complaints_say_what_about(error: DsmError)
    ensures
        match error {
            DsmError::InvalidUuid { keyid, cause } => {
                &&& error.words() == "invalid UUID in '"@ + keyid@ + "'"@
                &&& error.report() == error.words() + "\n\nCaused by:\n    "@ + text::indented(
                    cause@,
                )
            },
            DsmError::KbsStyleKeyId { keyid } => {
                error.words() == "DSM endpoint configured but keyid is KBS-style: '"@ + keyid@
                    + "'. Use '"@ + "kbs:///dsm/key/"@
                    + "<uuid>' to reference an existing DSM KEK, or omit keyid to auto-create."@
            },
            DsmError::TagLength { len } => exists|n: Seq<char>|
                error.words() == "DSM returned unexpected GCM tag length: "@ + n
                    + " bytes (expected "@ + text::decimal(16) + ")"@ && #[trigger] text::value(n)
                    == len,
            DsmError::CipherLength { len, expected } => exists|n: Seq<char>, m: Seq<char>|
                error.words() == "DSM wrap produced unexpected size: "@ + n + " bytes (expected "@
                    + m + ")"@ && #[trigger] text::value(n) == len && #[trigger] text::value(m)
                    == expected,
            _ => error.report() == error.words(),
        },
{
    match error {
        DsmError::TagLength { len } => {
            text::decimal_reads_back(len as nat);
            assert(text::value(text::decimal(len as nat)) == len);
        },
        DsmError::CipherLength { len, expected } => {
            text::decimal_reads_back(len as nat);
            text::decimal_reads_back(expected as nat);
            assert(text::value(text::decimal(len as nat)) == len);
            assert(text::value(text::decimal(expected as nat)) == expected);
        },
        _ => {},
    }
}

} // verus!
