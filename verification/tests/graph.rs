use jackstay::graph::{
    decide, hex_text, mint_token, Chroma, ChromaPolicy, Codec, CodecCapabilities, DecisionError,
};

fn caps(hevc444: bool, h264_444: bool, hevc420: bool, h264_420: bool) -> CodecCapabilities {
    CodecCapabilities {
        hevc_444_hardware: hevc444,
        hevc_420_hardware: hevc420,
        h264_444_hardware: h264_444,
        h264_420_hardware: h264_420,
    }
}

#[test]
fn prefers_hevc_444_when_both_ends_have_it() {
    let d = decide(ChromaPolicy::Prefer444, caps(true, true, true, true), caps(true, true, true, true)).unwrap();
    assert_eq!((d.codec, d.chroma), (Codec::Hevc, Chroma::Full));
}

#[test]
fn falls_back_to_h264_444_then_hevc_420() {
    let d = decide(ChromaPolicy::Prefer444, caps(false, true, true, true), caps(true, true, true, true)).unwrap();
    assert_eq!((d.codec, d.chroma), (Codec::H264, Chroma::Full));
    let d = decide(ChromaPolicy::Prefer444, caps(false, false, true, true), caps(true, true, true, true)).unwrap();
    assert_eq!((d.codec, d.chroma), (Codec::Hevc, Chroma::Subsampled));
}

#[test]
fn require_444_refuses_and_records_both_ends() {
    let e = caps(false, false, true, true);
    let i = caps(true, true, true, true);
    assert_eq!(
        decide(ChromaPolicy::Require444, e, i),
        Err(DecisionError::Require444Unmet { egress: e, ingress: i })
    );
}

#[test]
fn no_common_hardware_is_an_error() {
    assert!(matches!(
        decide(ChromaPolicy::Any, caps(true, false, true, false), caps(false, true, false, true)),
        Err(DecisionError::NoCommonCodec { .. })
    ));
}

#[test]
fn tokens_are_distinct_hex() {
    let mut bytes = [7u8; 32];
    let a = mint_token(&bytes);
    bytes[31] = 8;
    let b = mint_token(&bytes);
    assert_eq!(a.len(), 64);
    assert!(a.chars().all(|c| c.is_ascii_hexdigit()));
    assert_ne!(a, b);
}

#[test]
fn tokens_write_every_byte_in_two_digits() {
    assert_eq!(hex_text(&[0x00, 0x0f, 0xa5, 0xff]), "000fa5ff");
}

#[test]
fn decisions_are_the_same_from_either_end() {
    for policy in [ChromaPolicy::Require444, ChromaPolicy::Prefer444, ChromaPolicy::Any] {
        for bits in 0..256u32 {
            let bit = |i: u32| bits >> i & 1 == 1;
            let a = caps(bit(0), bit(1), bit(2), bit(3));
            let b = caps(bit(4), bit(5), bit(6), bit(7));
            let here = decide(policy, a, b);
            let there = decide(policy, b, a);
            match (here, there) {
                (Ok(here), Ok(there)) => {
                    assert_eq!((here.codec, here.chroma), (there.codec, there.chroma));
                }
                (Err(_), Err(_)) => {}
                _ => panic!("the two ends disagree"),
            }
        }
    }
}

#[test]
fn refusals_say_what_each_end_lacks() {
    let error = decide(ChromaPolicy::Any, caps(false, false, false, false), caps(true, true, true, true)).unwrap_err();
    assert!(error.message().contains("hevc_444_hardware: false"));
    assert!(error.message().contains("hevc_444_hardware: true"));
}

#[test]
fn any_takes_the_cheapest_common_chroma() {
    let all = caps(true, true, true, true);
    let d = decide(ChromaPolicy::Any, all, all).unwrap();
    assert_eq!((d.codec, d.chroma), (Codec::Hevc, Chroma::Subsampled));
    let d = decide(ChromaPolicy::Any, caps(true, true, false, true), all).unwrap();
    assert_eq!((d.codec, d.chroma), (Codec::H264, Chroma::Subsampled));
    let d = decide(ChromaPolicy::Any, caps(true, true, false, false), all).unwrap();
    assert_eq!((d.codec, d.chroma), (Codec::Hevc, Chroma::Full));
    let d = decide(ChromaPolicy::Any, caps(false, true, false, false), all).unwrap();
    assert_eq!((d.codec, d.chroma), (Codec::H264, Chroma::Full));
}
