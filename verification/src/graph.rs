//! Graph-manager vocabulary for publications.
//!
//! A *publication* is a running stream with a local endpoint. A *graph manager* starts
//! producers, connects consumers and inserts transforms that consume one publication and
//! produce another. An *export* is the graph-manager operation that creates a cross-host
//! edge: an egress half consumes a publication on one host, an ingress half produces a new
//! publication on the other whose source identity is the original source.
//!
//! This module holds only the shared types and decisions those operations need.

use vstd::prelude::*;

verus! {

/// How an export treats the absence of hardware 4:4:4 on either end.
#[derive(Debug, Clone, Copy, PartialEq, Eq, Structural)]
pub enum ChromaPolicy {
    /// Refuse the export unless both ends encode and decode 4:4:4 in hardware.
    Require444,
    /// Use 4:4:4 when both ends can, otherwise fall back and record it.
    Prefer444,
    /// Take whatever is cheapest.
    Any,
}

impl Default for ChromaPolicy {
    fn default() -> (result: Self)
        ensures
            result == ChromaPolicy::Prefer444,
    {
        ChromaPolicy::Prefer444
    }
}

#[derive(Debug, Clone, Copy, PartialEq, Eq, Structural)]
pub enum Codec {
    Hevc,
    H264,
}

#[derive(Debug, Clone, Copy, PartialEq, Eq, Structural)]
pub enum Chroma {
    /// 4:2:0.
    Subsampled,
    /// 4:4:4.
    Full,
}

/// What one end can do, as reported by its own capability probe at session start. Every field
/// is "verified by creating a session", never assumed.
#[derive(Debug, Clone, Copy, PartialEq, Eq, Structural)]
pub struct CodecCapabilities {
    pub hevc_444_hardware: bool,
    pub hevc_420_hardware: bool,
    pub h264_444_hardware: bool,
    pub h264_420_hardware: bool,
}

impl Default for CodecCapabilities {
    fn default() -> (result: Self)
        ensures
            result == (CodecCapabilities {
                hevc_444_hardware: false,
                hevc_420_hardware: false,
                h264_444_hardware: false,
                h264_420_hardware: false,
            }),
    {
        CodecCapabilities {
            hevc_444_hardware: false,
            hevc_420_hardware: false,
            h264_444_hardware: false,
            h264_420_hardware: false,
        }
    }
}

pub open spec fn flag_text(flag: bool) -> Seq<char> {
    if flag {
        "true"@
    } else {
        "false"@
    }
}

fn flag(set: bool) -> (result: &'static str)
    ensures
        result@ == flag_text(set),
{
    if set {
        "true"
    } else {
        "false"
    }
}

impl CodecCapabilities {
    /// The capabilities in words.
    pub open spec fn text(self) -> Seq<char> {
        "CodecCapabilities { hevc_444_hardware: "@ + flag_text(self.hevc_444_hardware)
            + ", hevc_420_hardware: "@ + flag_text(self.hevc_420_hardware)
            + ", h264_444_hardware: "@ + flag_text(self.h264_444_hardware)
            + ", h264_420_hardware: "@ + flag_text(self.h264_420_hardware) + " }"@
    }

    /// The capabilities in words.
    pub fn describe(&self) -> (result: String)
        ensures
            result@ == self.text(),
    {
        String::from_str("CodecCapabilities { hevc_444_hardware: ").concat(
            flag(self.hevc_444_hardware),
        ).concat(", hevc_420_hardware: ").concat(flag(self.hevc_420_hardware)).concat(
            ", h264_444_hardware: ",
        ).concat(flag(self.h264_444_hardware)).concat(", h264_420_hardware: ").concat(
            flag(self.h264_420_hardware),
        ).concat(" }")
    }
}

/// The codec an export settled on, with the reason recorded for status.
#[derive(Debug, PartialEq, Eq)]
pub struct CodecDecision {
    pub codec: Codec,
    pub chroma: Chroma,
    pub hardware: bool,
    pub reason: String,
}

impl Clone for CodecDecision {
    fn clone(&self) -> (result: Self)
        ensures
            result == *self,
    {
        CodecDecision {
            codec: self.codec,
            chroma: self.chroma,
            hardware: self.hardware,
            reason: self.reason.clone(),
        }
    }
}

#[derive(Debug, Clone, Copy, PartialEq, Eq, Structural)]
pub enum DecisionError {
    Require444Unmet { egress: CodecCapabilities, ingress: CodecCapabilities },
    NoCommonCodec { egress: CodecCapabilities, ingress: CodecCapabilities },
}

impl DecisionError {
    /// What the error says.
    pub open spec fn text(self) -> Seq<char> {
        match self {
            DecisionError::Require444Unmet { egress, ingress } =>
            "policy requires hardware 4:4:4 on both ends; egress "@ + egress.text() + ", ingress "@
                + ingress.text(),
            DecisionError::NoCommonCodec { egress, ingress } =>
            "no codec is available in hardware on both ends; egress "@ + egress.text()
                + ", ingress "@ + ingress.text(),
        }
    }

    /// The error in words.
    pub fn message(&self) -> (result: String)
        ensures
            result@ == self.text(),
    {
        match self {
            DecisionError::Require444Unmet { egress, ingress } => String::from_str(
                "policy requires hardware 4:4:4 on both ends; egress ",
            ).concat(egress.describe().as_str()).concat(", ingress ").concat(
                ingress.describe().as_str(),
            ),
            DecisionError::NoCommonCodec { egress, ingress } => String::from_str(
                "no codec is available in hardware on both ends; egress ",
            ).concat(egress.describe().as_str()).concat(", ingress ").concat(
                ingress.describe().as_str(),
            ),
        }
    }
}

/// Whether both ends have a codec at a chroma in hardware.
pub open spec fn common(
    egress: CodecCapabilities,
    ingress: CodecCapabilities,
    codec: Codec,
    chroma: Chroma,
) -> bool {
    match (codec, chroma) {
        (Codec::Hevc, Chroma::Full) => egress.hevc_444_hardware && ingress.hevc_444_hardware,
        (Codec::H264, Chroma::Full) => egress.h264_444_hardware && ingress.h264_444_hardware,
        (Codec::Hevc, Chroma::Subsampled) => egress.hevc_420_hardware && ingress.hevc_420_hardware,
        (Codec::H264, Chroma::Subsampled) => egress.h264_420_hardware && ingress.h264_420_hardware,
    }
}

/// Whether both ends have a chroma in hardware, with either codec.
pub open spec fn shared(egress: CodecCapabilities, ingress: CodecCapabilities, chroma: Chroma) -> bool {
    common(egress, ingress, Codec::Hevc, chroma) || common(egress, ingress, Codec::H264, chroma)
}

/// The chroma that an export settles on: full if both ends have it, unless the policy takes
/// what is cheapest; subsampled only if the policy allows it.
pub open spec fn settled_chroma(
    policy: ChromaPolicy,
    egress: CodecCapabilities,
    ingress: CodecCapabilities,
) -> Option<Chroma> {
    let (first, second) = if policy == ChromaPolicy::Any {
        (Chroma::Subsampled, Chroma::Full)
    } else {
        (Chroma::Full, Chroma::Subsampled)
    };
    if shared(egress, ingress, first) {
        Some(first)
    } else if policy != ChromaPolicy::Require444 && shared(egress, ingress, second) {
        Some(second)
    } else {
        None
    }
}

/// What an export settles on: HEVC over H.264 at the chroma that it settles on.
pub open spec fn settled(
    policy: ChromaPolicy,
    egress: CodecCapabilities,
    ingress: CodecCapabilities,
) -> Option<(Codec, Chroma)> {
    match settled_chroma(policy, egress, ingress) {
        Some(chroma) => Some(
            (
                if common(egress, ingress, Codec::Hevc, chroma) {
                    Codec::Hevc
                } else {
                    Codec::H264
                },
                chroma,
            ),
        ),
        None => None,
    }
}

/// The reason recorded for a decision; `passed` says that full chroma was there and passed over.
pub open spec fn reason(codec: Codec, chroma: Chroma, passed: bool) -> Seq<char> {
    match (codec, chroma) {
        (Codec::Hevc, Chroma::Full) => "hardware HEVC 4:4:4 on both ends"@,
        (Codec::H264, Chroma::Full) =>
        "hardware H.264 4:4:4 on both ends; HEVC 4:4:4 missing on one end"@,
        (Codec::Hevc, Chroma::Subsampled) => if passed {
            "hardware HEVC 4:2:0 on both ends; policy takes the cheapest"@
        } else {
            "no hardware 4:4:4 on both ends; policy allows 4:2:0"@
        },
        (Codec::H264, Chroma::Subsampled) => if passed {
            "hardware H.264 4:2:0 on both ends; policy takes the cheapest"@
        } else {
            "no hardware 4:4:4 or HEVC on both ends; policy allows 4:2:0"@
        },
    }
}

fn pick(codec: Codec, chroma: Chroma, passed: bool) -> (result: CodecDecision)
    ensures
        result.codec == codec,
        result.chroma == chroma,
        result.hardware,
        result.reason@ == reason(codec, chroma, passed),
{
    let reason = match (codec, chroma) {
        (Codec::Hevc, Chroma::Full) => "hardware HEVC 4:4:4 on both ends",
        (Codec::H264, Chroma::Full) =>
        "hardware H.264 4:4:4 on both ends; HEVC 4:4:4 missing on one end",
        (Codec::Hevc, Chroma::Subsampled) => if passed {
            "hardware HEVC 4:2:0 on both ends; policy takes the cheapest"
        } else {
            "no hardware 4:4:4 on both ends; policy allows 4:2:0"
        },
        (Codec::H264, Chroma::Subsampled) => if passed {
            "hardware H.264 4:2:0 on both ends; policy takes the cheapest"
        } else {
            "no hardware 4:4:4 or HEVC on both ends; policy allows 4:2:0"
        },
    };
    CodecDecision { codec, chroma, hardware: true, reason: String::from_str(reason) }
}

/// Picks the codec for an export. HEVC is preferred over H.264 at equal chroma because HEVC
/// carries reorder-zero in its SPS and measured smaller; 4:4:4 is preferred over 4:2:0 because
/// chroma fidelity on text cannot be bought with bitrate, unless the policy takes whatever is
/// cheapest. Software paths are not offered here: an end that lacks hardware simply does not
/// set the flag.
pub fn decide(
    policy: ChromaPolicy,
    egress: CodecCapabilities,
    ingress: CodecCapabilities,
) -> (result: Result<CodecDecision, DecisionError>)
    ensures
        match settled(policy, egress, ingress) {
            Some((codec, chroma)) => result matches Ok(decision) && {
                &&& decision.codec == codec
                &&& decision.chroma == chroma
                &&& decision.hardware
                &&& decision.reason@ == reason(
                    codec,
                    chroma,
                    shared(egress, ingress, Chroma::Full),
                )
            },
            None => result == Err::<CodecDecision, DecisionError>(
                if policy == ChromaPolicy::Require444 {
                    DecisionError::Require444Unmet { egress, ingress }
                } else {
                    DecisionError::NoCommonCodec { egress, ingress }
                },
            ),
        },
{
    let hevc_444 = egress.hevc_444_hardware && ingress.hevc_444_hardware;
    let h264_444 = egress.h264_444_hardware && ingress.h264_444_hardware;
    let hevc_420 = egress.hevc_420_hardware && ingress.hevc_420_hardware;
    let h264_420 = egress.h264_420_hardware && ingress.h264_420_hardware;
    let full = hevc_444 || h264_444;
    let cheapest = policy == ChromaPolicy::Any && (hevc_420 || h264_420);
    if hevc_444 && !cheapest {
        return Ok(pick(Codec::Hevc, Chroma::Full, full));
    }
    if h264_444 && !cheapest {
        return Ok(pick(Codec::H264, Chroma::Full, full));
    }
    if policy == ChromaPolicy::Require444 {
        return Err(DecisionError::Require444Unmet { egress, ingress });
    }
    if hevc_420 {
        return Ok(pick(Codec::Hevc, Chroma::Subsampled, full));
    }
    if h264_420 {
        return Ok(pick(Codec::H264, Chroma::Subsampled, full));
    }
    Err(DecisionError::NoCommonCodec { egress, ingress })
}

/// A decision names only what both ends have in hardware, and there is one exactly if both ends
/// have something that the policy allows.
pub proof fn decisions_use_common_hardware(
    policy: ChromaPolicy,
    egress: CodecCapabilities,
    ingress: CodecCapabilities,
)
    ensures
        settled(policy, egress, ingress) matches Some((codec, chroma)) ==> common(
            egress,
            ingress,
            codec,
            chroma,
        ),
        settled(policy, egress, ingress) is Some <==> exists|codec: Codec, chroma: Chroma| #[trigger]
            common(egress, ingress, codec, chroma) && (policy == ChromaPolicy::Require444 ==> chroma
                == Chroma::Full),
{
    if settled(policy, egress, ingress) is Some {
        let (codec, chroma) = settled(policy, egress, ingress)->0;
        assert(common(egress, ingress, codec, chroma));
    }
}

/// Full chroma is taken whenever both ends have it, unless the policy takes what is cheapest,
/// and a policy that requires it gets nothing else.
pub proof fn full_chroma_is_preferred(
    policy: ChromaPolicy,
    egress: CodecCapabilities,
    ingress: CodecCapabilities,
)
    ensures
        policy != ChromaPolicy::Any && shared(egress, ingress, Chroma::Full) ==> (settled(
            policy,
            egress,
            ingress,
        ) matches Some((_, chroma)) && chroma == Chroma::Full),
        policy == ChromaPolicy::Require444 ==> (settled(policy, egress, ingress) matches Some(
            (_, chroma),
        ) ==> chroma == Chroma::Full),
{
}

/// The policy that takes what is cheapest gets subsampled chroma whenever both ends have it, and
/// full chroma where nothing else is common.
pub proof fn cheapest_chroma_is_subsampled(egress: CodecCapabilities, ingress: CodecCapabilities)
    ensures
        shared(egress, ingress, Chroma::Subsampled) ==> (settled(
            ChromaPolicy::Any,
            egress,
            ingress,
        ) matches Some((_, chroma)) && chroma == Chroma::Subsampled),
        settled(ChromaPolicy::Any, egress, ingress) matches Some((_, chroma)) && chroma
            == Chroma::Full ==> !shared(egress, ingress, Chroma::Subsampled),
{
}

/// It does not matter which end is which.
pub proof fn decisions_are_symmetric(
    policy: ChromaPolicy,
    egress: CodecCapabilities,
    ingress: CodecCapabilities,
)
    ensures
        settled(policy, egress, ingress) == settled(policy, ingress, egress),
{
}

/// Whatever is decided, both ends have it in hardware; HEVC gives way to H.264 only where one end
/// lacks it at that chroma. A policy that requires full chroma gets nothing else, one that prefers
/// it gets it wherever both ends have it, and one that takes the cheapest gets subsampled chroma
/// wherever both ends have it. Where nothing is decided, the ends have nothing in common that the
/// policy allows, and the error says what each end has.
pub proof fn decisions_follow_the_hardware(
    policy: ChromaPolicy,
    egress: CodecCapabilities,
    ingress: CodecCapabilities,
    result: Result<CodecDecision, DecisionError>,
)
    requires
        call_ensures(decide, (policy, egress, ingress), result),
    ensures
        ({
            let hevc_full = egress.hevc_444_hardware && ingress.hevc_444_hardware;
            let h264_full = egress.h264_444_hardware && ingress.h264_444_hardware;
            let hevc_sub = egress.hevc_420_hardware && ingress.hevc_420_hardware;
            let h264_sub = egress.h264_420_hardware && ingress.h264_420_hardware;
            &&& result matches Ok(decision) ==> {
                &&& decision.hardware
                &&& decision.codec == Codec::Hevc && decision.chroma == Chroma::Full ==> hevc_full
                &&& decision.codec == Codec::H264 && decision.chroma == Chroma::Full ==> h264_full
                    && !hevc_full
                &&& decision.codec == Codec::Hevc && decision.chroma == Chroma::Subsampled
                    ==> hevc_sub
                &&& decision.codec == Codec::H264 && decision.chroma == Chroma::Subsampled
                    ==> h264_sub && !hevc_sub
                &&& policy == ChromaPolicy::Require444 ==> decision.chroma == Chroma::Full
                &&& policy == ChromaPolicy::Prefer444 && (hevc_full || h264_full)
                    ==> decision.chroma == Chroma::Full
                &&& policy == ChromaPolicy::Any && (hevc_sub || h264_sub) ==> decision.chroma
                    == Chroma::Subsampled
                &&& decision.reason@.len() > 0
            }
            &&& result is Err ==> !hevc_full && !h264_full
            &&& result is Err && policy != ChromaPolicy::Require444 ==> !hevc_sub && !h264_sub
            &&& result matches Err(DecisionError::Require444Unmet { egress: e, ingress: i }) ==> {
                policy == ChromaPolicy::Require444 && e == egress && i == ingress
            }
            &&& result matches Err(DecisionError::NoCommonCodec { egress: e, ingress: i }) ==> {
                policy != ChromaPolicy::Require444 && e == egress && i == ingress
            }
        }),
{
    reveal_strlit("hardware HEVC 4:4:4 on both ends");
    reveal_strlit("hardware H.264 4:4:4 on both ends; HEVC 4:4:4 missing on one end");
    reveal_strlit("hardware HEVC 4:2:0 on both ends; policy takes the cheapest");
    reveal_strlit("no hardware 4:4:4 on both ends; policy allows 4:2:0");
    reveal_strlit("hardware H.264 4:2:0 on both ends; policy takes the cheapest");
    reveal_strlit("no hardware 4:4:4 or HEVC on both ends; policy allows 4:2:0");
}

/// What the consumer side wants. Coalesced: a newer target replaces an older one, nothing is
/// queued. Size requests are wishes; the producer-side coordinator decides whether to change
/// the capture output.
#[derive(Debug, Clone, Copy, PartialEq, Eq, Structural)]
pub struct Target {
    pub width: Option<u32>,
    pub height: Option<u32>,
    pub max_fps: Option<u32>,
    /// Frames the consumer wants to be able to hold at once.
    pub holding: Option<u32>,
}

impl Default for Target {
    fn default() -> (result: Self)
        ensures
            result == (Target { width: None, height: None, max_fps: None, holding: None }),
    {
        Target { width: None, height: None, max_fps: None, holding: None }
    }
}

/// The two identities an export keeps apart: what is being shown, and the running stream that
/// shows it right now.
#[derive(Debug, PartialEq, Eq)]
pub struct Identities {
    /// Stable identity of the thing captured (a surface, an app), owned by the producer-side
    /// coordinator.
    pub source: String,
    /// Identity of the running publication this export consumes. Changes when the producer
    /// restarts.
    pub publication: String,
}

impl Clone for Identities {
    fn clone(&self) -> (result: Self)
        ensures
            result == *self,
    {
        Identities { source: self.source.clone(), publication: self.publication.clone() }
    }
}

#[derive(Debug, Clone, Copy, PartialEq, Eq, Structural)]
pub enum Carrier {
    /// Two byte streams (media, control) over sockets the coordinator forwards.
    StreamLocal,
}

#[derive(Debug, PartialEq, Eq)]
pub struct ExportRequest {
    pub publication: String,
    pub carrier: Carrier,
    pub chroma: ChromaPolicy,
    pub target: Target,
}

impl Clone for ExportRequest {
    fn clone(&self) -> (result: Self)
        ensures
            result == *self,
    {
        ExportRequest {
            publication: self.publication.clone(),
            carrier: self.carrier,
            chroma: self.chroma,
            target: self.target,
        }
    }
}

/// The lower-case hexadecimal digit of a value below sixteen.
pub open spec fn hex_digit(value: int) -> char {
    if value < 10 {
        (48 + value) as char
    } else {
        (87 + value) as char
    }
}

/// Two lower-case hexadecimal digits for each byte, the high one first.
pub open spec fn hex(bytes: Seq<u8>) -> Seq<char>
    decreases bytes.len(),
{
    if bytes.len() == 0 {
        Seq::empty()
    } else {
        hex(bytes.drop_last()).push(hex_digit(bytes.last() as int / 16)).push(
            hex_digit(bytes.last() as int % 16),
        )
    }
}

fn digit(value: u8) -> (result: char)
    requires
        value < 16,
    ensures
        result == hex_digit(value as int),
{
    if value < 10 {
        (48 + value) as char
    } else {
        (87 + value) as char
    }
}

/// Two lower-case hexadecimal digits for each byte, the high one first.
pub fn hex_text(bytes: &[u8]) -> (result: String)
    ensures
        result@ == hex(bytes@),
{
    let mut text = String::new();
    let mut i: usize = 0;
    assert(text@ =~= hex(bytes@.take(0)));
    while i < bytes.len()
        invariant
            i <= bytes@.len(),
            text@ == hex(bytes@.take(i as int)),
        decreases bytes@.len() - i,
    {
        let byte: u8 = bytes[i];
        assert(bytes@.take(i + 1).drop_last() =~= bytes@.take(i as int));
        text.push(digit(byte / 16));
        text.push(digit(byte % 16));
        i = i + 1;
    }
    assert(bytes@.take(i as int) =~= bytes@);
    text
}

/// A single-use capability handed to a bridge half by the coordinator that spawned it: 32 bytes
/// from the host's random source, hex encoded.
pub fn mint_token(random: &[u8; 32]) -> (result: String)
    ensures
        result@ == hex(random@),
{
    hex_text(random.as_slice())
}

/// A token has two characters for each byte, and all of them are hexadecimal digits.
pub proof fn tokens_are_hexadecimal(bytes: Seq<u8>)
    ensures
        hex(bytes).len() == 2 * bytes.len(),
        forall|i: int|
            0 <= i < hex(bytes).len() ==> ('0' <= #[trigger] hex(bytes)[i] <= '9' || 'a' <= hex(
                bytes,
            )[i] <= 'f'),
    decreases bytes.len(),
{
    if bytes.len() > 0 {
        tokens_are_hexadecimal(bytes.drop_last());
        let rest = hex(bytes.drop_last());
        assert forall|i: int| 0 <= i < hex(bytes).len() implies ('0' <= #[trigger] hex(bytes)[i]
            <= '9' || 'a' <= hex(bytes)[i] <= 'f') by {
            if i < rest.len() {
                assert(hex(bytes)[i] == rest[i]);
            }
        }
    }
}

/// Different bytes give different tokens.
pub proof fn tokens_tell_bytes_apart(a: Seq<u8>, b: Seq<u8>)
    requires
        hex(a) == hex(b),
    ensures
        a == b,
    decreases a.len(),
{
    tokens_are_hexadecimal(a);
    tokens_are_hexadecimal(b);
    if a.len() > 0 {
        let n = hex(a).len();
        assert(hex(a)[n - 1] == hex(b)[n - 1]);
        assert(hex(a)[n - 2] == hex(b)[n - 2]);
        assert(hex(a)[n - 1] == hex_digit(a.last() as int % 16));
        assert(hex(b)[n - 1] == hex_digit(b.last() as int % 16));
        assert(hex(a)[n - 2] == hex_digit(a.last() as int / 16));
        assert(hex(b)[n - 2] == hex_digit(b.last() as int / 16));
        assert(a.last() == b.last());
        assert(hex(a.drop_last()) =~= hex(a).take(n - 2));
        assert(hex(b.drop_last()) =~= hex(b).take(n - 2));
        tokens_tell_bytes_apart(a.drop_last(), b.drop_last());
        assert(a =~= a.drop_last().push(a.last()));
        assert(b =~= b.drop_last().push(b.last()));
    } else {
        assert(a =~= b);
    }
}

/// The value of a lower-case hexadecimal digit.
pub open spec fn hex_value(c: char) -> int {
    if '0' <= c <= '9' {
        c as int - '0' as int
    } else {
        c as int - 'a' as int + 10
    }
}

/// A token spells its bytes in their order, each with its high half first.
pub proof fn tokens_spell_their_bytes(bytes: Seq<u8>, i: int)
    requires
        0 <= i < bytes.len(),
    ensures
        hex(bytes).len() == 2 * bytes.len(),
        hex_value(hex(bytes)[2 * i]) * 16 + hex_value(hex(bytes)[2 * i + 1]) == bytes[i],
    decreases bytes.len(),
{
    tokens_are_hexadecimal(bytes);
    let rest = bytes.drop_last();
    tokens_are_hexadecimal(rest);
    if i < rest.len() {
        tokens_spell_their_bytes(rest, i);
        assert(hex(bytes)[2 * i] == hex(rest)[2 * i]);
        assert(hex(bytes)[2 * i + 1] == hex(rest)[2 * i + 1]);
    }
}

} // verus!
