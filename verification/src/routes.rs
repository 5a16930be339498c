//! The routing of the daemon's HTTP requests on devices and captures: what
//! a request asks for, from its method, its path, the identifier that
//! follows the path and its body. Serving a route is the caller's work.

use crate::text::{parse_decimal, parse_decimal_str, push_str};
use vstd::prelude::*;

verus! {

/// Whether two texts are equal.
pub fn str_eq(a: &str, b: &str) -> (r: bool)
    ensures
        r == (a@ == b@),
{
    let n = a.unicode_len();
    if n != b.unicode_len() {
        return false;
    }
    let mut i: usize = 0;
    while i < n
        invariant
            n == a@.len() == b@.len(),
            i <= n,
            a@.take(i as int) == b@.take(i as int),
        decreases n - i,
    {
        if a.get_char(i) != b.get_char(i) {
            assert(a@[i as int] != b@[i as int]);
            return false;
        }
        assert(a@.take(i + 1) =~= a@.take(i as int).push(a@[i as int]));
        assert(b@.take(i + 1) =~= b@.take(i as int).push(b@[i as int]));
        i = i + 1;
    }
    assert(a@ =~= a@.take(n as int));
    assert(b@ =~= b@.take(n as int));
    true
}

/// The error text of a route that does not exist.
pub open spec fn not_found() -> Seq<char> {
    "Not found."@
}

/// The identifier in a path, as `str::parse` reads a `u32`.
pub open spec fn path_id(param: Seq<char>) -> Option<u32> {
    match parse_decimal(param, u32::MAX as nat) {
        Some(v) => Some(v as u32),
        None => None,
    }
}

/// Reads the identifier in a path.
fn parse_path_id(param: &str) -> (r: Option<u32>)
    ensures
        r == path_id(param@),
{
    match parse_decimal_str(param, u32::MAX as u64) {
        Some(v) => Some(v as u32),
        None => None,
    }
}

/// A text as a `String`.
fn text_of(text: &str) -> (r: String)
    ensures
        r@ == text@,
{
    let mut s = String::new();
    push_str(&mut s, text);
    assert(s@ =~= text@);
    s
}

/// What a request on the captures asks for.
#[derive(Debug, PartialEq, Eq)]
pub enum CaptureRoute {
    /// List the captures.
    List,
    /// Download the capture of a chip.
    Get(u32),
    /// Turn the capture of a chip on (`true`) or off.
    Patch(u32, bool),
    /// Answer with a 404 error and this text.
    Error(String),
}

/// A capture route, its error text as characters.
pub enum CaptureRouteModel {
    List,
    Get(u32),
    Patch(u32, bool),
    Error(Seq<char>),
}

impl View for CaptureRoute {
    type V = CaptureRouteModel;

    open spec fn view(&self) -> CaptureRouteModel {
        match self {
            CaptureRoute::List => CaptureRouteModel::List,
            CaptureRoute::Get(id) => CaptureRouteModel::Get(*id),
            CaptureRoute::Patch(id, on) => CaptureRouteModel::Patch(*id, *on),
            CaptureRoute::Error(m) => CaptureRouteModel::Error(m@),
        }
    }
}

/// The path of the capture list.
pub open spec fn captures_path() -> Seq<char> {
    "/v1/captures"@
}

/// The route of a request on the captures: at the list path only `GET`,
/// the list; with an identifier, `GET` downloads and `PATCH` turns capture
/// on for the body `1` and off for `2`; an identifier that is not a `u32`,
/// a state that is neither, and any other request are errors.
pub open spec fn capture_route(
    method: Seq<char>,
    uri: Seq<char>,
    param: Seq<char>,
    body: Seq<char>,
) -> CaptureRouteModel {
    if uri == captures_path() {
        if method == "GET"@ {
            CaptureRouteModel::List
        } else {
            CaptureRouteModel::Error(not_found())
        }
    } else if method == "GET"@ {
        match path_id(param) {
            Some(id) => CaptureRouteModel::Get(id),
            None => CaptureRouteModel::Error(
                "Incorrect ID type for capture, ID should be u32."@,
            ),
        }
    } else if method == "PATCH"@ {
        match path_id(param) {
            Some(id) => if body == "1"@ {
                CaptureRouteModel::Patch(id, true)
            } else if body == "2"@ {
                CaptureRouteModel::Patch(id, false)
            } else {
                CaptureRouteModel::Error("Incorrect state for PatchCapture"@)
            },
            None => CaptureRouteModel::Error(
                "Incorrect ID type for capture, ID should be u32."@,
            ),
        }
    } else {
        CaptureRouteModel::Error(not_found())
    }
}

/// Routes a request on the captures (see `capture_route`).
pub fn route_capture(method: &str, uri: &str, param: &str, body: &str) -> (r: CaptureRoute)
    ensures
        r@ == capture_route(method@, uri@, param@, body@),
{
    proof {
        reveal_strlit("/v1/captures");
        reveal_strlit("GET");
        reveal_strlit("PATCH");
        reveal_strlit("1");
        reveal_strlit("2");
    }
    if str_eq(uri, "/v1/captures") {
        if str_eq(method, "GET") {
            CaptureRoute::List
        } else {
            CaptureRoute::Error(text_of("Not found."))
        }
    } else if str_eq(method, "GET") {
        match parse_path_id(param) {
            Some(id) => CaptureRoute::Get(id),
            None => CaptureRoute::Error(text_of("Incorrect ID type for capture, ID should be u32.")),
        }
    } else if str_eq(method, "PATCH") {
        match parse_path_id(param) {
            Some(id) => if str_eq(body, "1") {
                CaptureRoute::Patch(id, true)
            } else if str_eq(body, "2") {
                CaptureRoute::Patch(id, false)
            } else {
                CaptureRoute::Error(text_of("Incorrect state for PatchCapture"))
            },
            None => CaptureRoute::Error(text_of("Incorrect ID type for capture, ID should be u32.")),
        }
    } else {
        CaptureRoute::Error(text_of("Not found."))
    }
}


/// What a request on the devices asks for; the bodies are JSON texts that
/// the caller decodes.
#[derive(Debug, PartialEq, Eq)]
pub enum DeviceRoute {
    /// List the devices.
    List,
    /// Reset every device.
    Reset,
    /// Wait for a change of the devices, as the body describes.
    Subscribe(String),
    /// Patch a device: the one with the identifier, else the one the body
    /// names.
    Patch(Option<u32>, String),
    /// Create the device that the body describes.
    Create(String),
    /// Delete the chip that the body names.
    DeleteChip(String),
    /// Answer with a 404 error and this text.
    Error(String),
}

/// A device route, its texts as characters.
pub enum DeviceRouteModel {
    List,
    Reset,
    Subscribe(Seq<char>),
    Patch(Option<u32>, Seq<char>),
    Create(Seq<char>),
    DeleteChip(Seq<char>),
    Error(Seq<char>),
}

impl View for DeviceRoute {
    type V = DeviceRouteModel;

    open spec fn view(&self) -> DeviceRouteModel {
        match self {
            DeviceRoute::List => DeviceRouteModel::List,
            DeviceRoute::Reset => DeviceRouteModel::Reset,
            DeviceRoute::Subscribe(b) => DeviceRouteModel::Subscribe(b@),
            DeviceRoute::Patch(id, b) => DeviceRouteModel::Patch(*id, b@),
            DeviceRoute::Create(b) => DeviceRouteModel::Create(b@),
            DeviceRoute::DeleteChip(b) => DeviceRouteModel::DeleteChip(b@),
            DeviceRoute::Error(m) => DeviceRouteModel::Error(m@),
        }
    }
}

/// The path of the device list.
pub open spec fn devices_path() -> Seq<char> {
    "/v1/devices"@
}

/// The route of a request on the devices: at the list path `GET` lists,
/// `PUT` resets, `SUBSCRIBE` waits for a change, `PATCH` patches the device
/// that the body names, `POST` creates one and `DELETE` deletes a chip;
/// with an identifier only `PATCH`, on the device that it names. An
/// identifier that is not a `u32` and any other request are errors.
pub open spec fn device_route(
    method: Seq<char>,
    uri: Seq<char>,
    param: Seq<char>,
    body: Seq<char>,
) -> DeviceRouteModel {
    if uri == devices_path() {
        if method == "GET"@ {
            DeviceRouteModel::List
        } else if method == "PUT"@ {
            DeviceRouteModel::Reset
        } else if method == "SUBSCRIBE"@ {
            DeviceRouteModel::Subscribe(body)
        } else if method == "PATCH"@ {
            DeviceRouteModel::Patch(None, body)
        } else if method == "POST"@ {
            DeviceRouteModel::Create(body)
        } else if method == "DELETE"@ {
            DeviceRouteModel::DeleteChip(body)
        } else {
            DeviceRouteModel::Error(not_found())
        }
    } else if method == "PATCH"@ {
        match path_id(param) {
            Some(id) => DeviceRouteModel::Patch(Some(id), body),
            None => DeviceRouteModel::Error("Incorrect Id type for devices, ID should be u32."@),
        }
    } else {
        DeviceRouteModel::Error(not_found())
    }
}

/// Routes a request on the devices (see `device_route`).
pub fn route_device(method: &str, uri: &str, param: &str, body: &str) -> (r: DeviceRoute)
    ensures
        r@ == device_route(method@, uri@, param@, body@),
{
    proof {
        reveal_strlit("/v1/devices");
        reveal_strlit("GET");
        reveal_strlit("PUT");
        reveal_strlit("SUBSCRIBE");
        reveal_strlit("PATCH");
        reveal_strlit("POST");
        reveal_strlit("DELETE");
    }
    if str_eq(uri, "/v1/devices") {
        if str_eq(method, "GET") {
            DeviceRoute::List
        } else if str_eq(method, "PUT") {
            DeviceRoute::Reset
        } else if str_eq(method, "SUBSCRIBE") {
            DeviceRoute::Subscribe(text_of(body))
        } else if str_eq(method, "PATCH") {
            DeviceRoute::Patch(None, text_of(body))
        } else if str_eq(method, "POST") {
            DeviceRoute::Create(text_of(body))
        } else if str_eq(method, "DELETE") {
            DeviceRoute::DeleteChip(text_of(body))
        } else {
            DeviceRoute::Error(text_of("Not found."))
        }
    } else if str_eq(method, "PATCH") {
        match parse_path_id(param) {
            Some(id) => DeviceRoute::Patch(Some(id), text_of(body)),
            None => DeviceRoute::Error(text_of("Incorrect Id type for devices, ID should be u32.")),
        }
    } else {
        DeviceRoute::Error(text_of("Not found."))
    }
}

} // verus!
