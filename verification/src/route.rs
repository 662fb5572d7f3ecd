use vstd::prelude::*;

use crate::audio_format::FormatDescriptor;

verus! {

/// The request methods the streaming endpoints distinguish.
#[derive(Clone, Copy, Debug, PartialEq, Eq, Structural)]
pub enum RequestMethod {
    Get,
    Head,
    Other,
}

/// Which sample source a streaming path binds to.
#[derive(Clone, Copy, Debug, PartialEq, Eq, Structural)]
pub enum SourceKind {
    LiveDevice,
    FileReplay,
}

/// What the transport layer must do with a request.
#[derive(Clone, Copy, Debug, PartialEq, Eq, Structural)]
pub enum RouteDecision {
    StreamWithBody(SourceKind),
    HeadersOnly(SourceKind),
    MethodNotAllowed,
    NotFound,
}

/// The bytes of the live-capture path, "/stream.raw".
pub open spec fn stream_path() -> Seq<u8> {
    seq![47u8, 115u8, 116u8, 114u8, 101u8, 97u8, 109u8, 46u8, 114u8, 97u8, 119u8]
}

/// The bytes of the file-replay path, "/file.raw".
pub open spec fn file_path() -> Seq<u8> {
    seq![47u8, 102u8, 105u8, 108u8, 101u8, 46u8, 114u8, 97u8, 119u8]
}

/// The routing rule: GET on a streaming path opens a session and streams
/// its chunks, HEAD answers with headers only, any other method on the
/// live path is refused as not allowed, and everything else is not found.
pub open spec fn spec_route(m: RequestMethod, path: Seq<u8>) -> RouteDecision {
    if path == stream_path() {
        match m {
            RequestMethod::Get => RouteDecision::StreamWithBody(SourceKind::LiveDevice),
            RequestMethod::Head => RouteDecision::HeadersOnly(SourceKind::LiveDevice),
            RequestMethod::Other => RouteDecision::MethodNotAllowed,
        }
    } else if path == file_path() {
        match m {
            RequestMethod::Get => RouteDecision::StreamWithBody(SourceKind::FileReplay),
            RequestMethod::Head => RouteDecision::HeadersOnly(SourceKind::FileReplay),
            RequestMethod::Other => RouteDecision::NotFound,
        }
    } else {
        RouteDecision::NotFound
    }
}

/// Whether two byte strings are equal.
fn bytes_eq(a: &[u8], b: &[u8]) -> (r: bool)
    ensures
        r == (a@ == b@),
{
    if a.len() != b.len() {
        proof {
            assert(a@ != b@);
        }
        return false;
    }
    let mut i: usize = 0;
    while i < a.len()
        invariant
            i <= a@.len(),
            a@.len() == b@.len(),
            forall|j: int| 0 <= j < i ==> a@[j] == b@[j],
        decreases a@.len() - i,
    {
        if a[i] != b[i] {
            proof {
                assert(a@[i as int] != b@[i as int]);
            }
            return false;
        }
        i = i + 1;
    }
    proof {
        assert(a@ =~= b@);
    }
    true
}

/// Decides what to do with one request, from its method and path bytes.
pub fn route(m: RequestMethod, path: &[u8]) -> (r: RouteDecision)
    ensures
        r == spec_route(m, path@),
{
    // "/stream.raw" and "/file.raw" as bytes
    let stream_pat: [u8; 11] = [47, 115, 116, 114, 101, 97, 109, 46, 114, 97, 119];
    let file_pat: [u8; 9] = [47, 102, 105, 108, 101, 46, 114, 97, 119];
    proof {
        assert(stream_pat@ =~= stream_path());
        assert(file_pat@ =~= file_path());
    }
    if bytes_eq(path, stream_pat.as_slice()) {
        match m {
            RequestMethod::Get => RouteDecision::StreamWithBody(SourceKind::LiveDevice),
            RequestMethod::Head => RouteDecision::HeadersOnly(SourceKind::LiveDevice),
            RequestMethod::Other => RouteDecision::MethodNotAllowed,
        }
    } else if bytes_eq(path, file_pat.as_slice()) {
        match m {
            RequestMethod::Get => RouteDecision::StreamWithBody(SourceKind::FileReplay),
            RequestMethod::Head => RouteDecision::HeadersOnly(SourceKind::FileReplay),
            RequestMethod::Other => RouteDecision::NotFound,
        }
    } else {
        RouteDecision::NotFound
    }
}

} // verus!
