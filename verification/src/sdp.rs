//! Deterministic Session Description Protocol (SDP) helpers for WHIP/WebRTC.
//!
//! The offer is built from fixed, well-known codec parameters so that the
//! signaling path is testable offline. A WHIP endpoint treats the SDP as an
//! opaque media description; the property that matters is a stable, valid
//! description that an H.264/Opus WebRTC pipeline can negotiate.
use vstd::prelude::*;

use crate::text::{append_decimal, decimal, owned};

verus! {

/// The session seed folded over a byte prefix: `acc * 31 + byte`, wrapping
/// at 64 bits.
pub open spec fn seed_fold(bytes: Seq<u8>) -> nat
    decreases bytes.len(),
{
    if bytes.len() == 0 {
        0
    } else {
        ((seed_fold(bytes.drop_last()) * 31) % 0x1_0000_0000_0000_0000 + bytes.last() as nat)
            % 0x1_0000_0000_0000_0000
    }
}

/// A stable numeric seed (below 100 000) derived from the endpoint URL's
/// UTF-8 bytes. It only keeps the session id deterministic; it is not a
/// security boundary.
pub open spec fn seed_spec(endpoint: Seq<char>) -> nat {
    seed_fold(vstd::utf8::encode_utf8(endpoint)) % 100_000
}

/// The offer text for a given seed.
pub open spec fn offer_text(seed: nat) -> Seq<char> {
    "v=0\r\no=- "@ + decimal(seed) + " "@ + decimal(seed) + " IN IP4 0.0.0.0\r\n"@ + offer_body()
}

/// The fixed media sections of the offer.
pub open spec fn offer_body() -> Seq<char> {
    "s=Rivulet WHIP\r\nt=0 0\r\na=group:BUNDLE 0 1\r\na=ice-options:trickle\r\nm=video 9 UDP/TLS/RTP/SAVPF 96 97\r\nc=IN IP4 0.0.0.0\r\na=mid:0\r\na=sendonly\r\na=rtcp-mux\r\na=rtpmap:96 H264/90000\r\na=fmtp:96 packetization-mode=1;profile-level-id=42e01f\r\na=rtcp-fb:96 nack\r\na=rtcp-fb:96 nack pli\r\nm=audio 9 UDP/TLS/RTP/SAVPF 111\r\nc=IN IP4 0.0.0.0\r\na=mid:1\r\na=sendonly\r\na=rtcp-mux\r\na=rtpmap:111 opus/48000/2\r\n"@
}

/// A deterministic, H.264 + Opus SDP offer.
pub struct SdpOffer {
    sdp: String,
}

impl SdpOffer {
    /// The offer text.
    pub closed spec fn spec_sdp(&self) -> Seq<char> {
        self.sdp@
    }

    /// Build an offer for the given WHIP endpoint. The endpoint only seeds
    /// the session id; it is never echoed into the description.
    pub fn h264_opus(endpoint: &str) -> (r: Self)
        ensures
            r.spec_sdp() == offer_text(seed_spec(endpoint@)),
    {
        let seed = seed_for(endpoint);
        let mut sdp = owned("v=0\r\no=- ");
        append_decimal(&mut sdp, seed);
        sdp.append(" ");
        append_decimal(&mut sdp, seed);
        sdp.append(" IN IP4 0.0.0.0\r\n");
        sdp.append("s=Rivulet WHIP\r\nt=0 0\r\na=group:BUNDLE 0 1\r\na=ice-options:trickle\r\nm=video 9 UDP/TLS/RTP/SAVPF 96 97\r\nc=IN IP4 0.0.0.0\r\na=mid:0\r\na=sendonly\r\na=rtcp-mux\r\na=rtpmap:96 H264/90000\r\na=fmtp:96 packetization-mode=1;profile-level-id=42e01f\r\na=rtcp-fb:96 nack\r\na=rtcp-fb:96 nack pli\r\nm=audio 9 UDP/TLS/RTP/SAVPF 111\r\nc=IN IP4 0.0.0.0\r\na=mid:1\r\na=sendonly\r\na=rtcp-mux\r\na=rtpmap:111 opus/48000/2\r\n");
        SdpOffer { sdp }
    }

    /// The SDP text; an empty description is an error.
    pub fn to_sdp(&self) -> (r: Result<String, &'static str>)
        ensures
            self.spec_sdp().len() == 0 ==> r.is_err(),
            self.spec_sdp().len() > 0 ==> (r matches Ok(s) && s@ == self.spec_sdp()),
    {
        if self.sdp.as_str().is_empty() {
            return Err("SDP session string is empty");
        }
        Ok(self.sdp.clone())
    }
}

/// The session seed of `endpoint`.
pub fn seed_for(endpoint: &str) -> (r: u64)
    ensures
        r == seed_spec(endpoint@),
{
    let bytes = endpoint.as_bytes();
    let ghost b = bytes@;
    let mut acc: u64 = 0;
    let mut i: usize = 0;
    while i < bytes.len()
        invariant
            b == bytes@,
            i <= b.len(),
            acc as nat == seed_fold(b.subrange(0, i as int)),
        decreases b.len() - i,
    {
        proof {
            assert(b.subrange(0, i + 1).drop_last() =~= b.subrange(0, i as int));
            assert(b.subrange(0, i + 1).last() == b[i as int]);
        }
        acc = acc.wrapping_mul(31).wrapping_add(bytes[i] as u64);
        i = i + 1;
    }
    proof {
        assert(b.subrange(0, b.len() as int) =~= b);
    }
    acc % 100_000
}

} // verus!
