//! Errors and how they read.

use vstd::prelude::*;
use vstd::string::*;

verus! {

/// What can go wrong outside a single encode. Paths are held as text.
#[derive(Debug)]
pub enum BbtError {
    FileNotFound(String),
    ProbeFailed { path: String, reason: String },
    NoAudioTrack(String),
    ProfileNotFound(String),
    InvalidProfile { path: String, reason: String },
    CapabilityError(String),
    NoAdapterForCodec { codec: String, available: String },
    GraphNotFound(String),
    InvalidGraph { path: String, reason: String },
    ManifestNotFound(String),
    InvalidManifest { path: String, reason: String },
    Io(String),
}

/// `front`, then `value`.
fn with_value(front: &str, value: &str) -> (r: String)
    ensures
        r@ == front@ + value@,
{
    let mut m = front.to_owned();
    m.append(value);
    m
}

/// `front`, a first value, `middle`, and a second value.
fn with_two(front: &str, first: &str, middle: &str, second: &str) -> (r: String)
    ensures
        r@ == front@ + first@ + middle@ + second@,
{
    let mut m = front.to_owned();
    m.append(first);
    m.append(middle);
    m.append(second);
    m
}

impl BbtError {
    pub open spec fn text(&self) -> Seq<char> {
        match self {
            BbtError::FileNotFound(path) => "file not found: "@ + path@,
            BbtError::ProbeFailed { path, reason } => "probe failed for "@ + path@ + ": "@ + reason@,
            BbtError::NoAudioTrack(path) => "no audio track found in "@ + path@,
            BbtError::ProfileNotFound(id) => "profile not found: '"@ + id@ + "'"@,
            BbtError::InvalidProfile { path, reason } => "invalid profile file "@ + path@ + ": "@
                + reason@,
            BbtError::CapabilityError(what) => "capability resolver: "@ + what@,
            BbtError::NoAdapterForCodec { codec, available } => "no adapter can encode to codec '"@
                + codec@ + "' (available: "@ + available@ + ")"@,
            BbtError::GraphNotFound(path) => "graph file not found: "@ + path@,
            BbtError::InvalidGraph { path, reason } => "invalid graph file "@ + path@ + ": "@
                + reason@,
            BbtError::ManifestNotFound(path) => "manifest file not found: "@ + path@,
            BbtError::InvalidManifest { path, reason } => "invalid manifest "@ + path@ + ": "@
                + reason@,
            BbtError::Io(what) => "IO error: "@ + what@,
        }
    }

    /// The message of the error.
    pub fn message(&self) -> (r: String)
        ensures
            r@ == self.text(),
    {
        match self {
            BbtError::FileNotFound(path) => with_value("file not found: ", path.as_str()),
            BbtError::ProbeFailed { path, reason } => with_two(
                "probe failed for ",
                path.as_str(),
                ": ",
                reason.as_str(),
            ),
            BbtError::NoAudioTrack(path) => with_value("no audio track found in ", path.as_str()),
            BbtError::ProfileNotFound(id) => {
                let mut m = with_value("profile not found: '", id.as_str());
                m.append("'");
                m
            },
            BbtError::InvalidProfile { path, reason } => with_two(
                "invalid profile file ",
                path.as_str(),
                ": ",
                reason.as_str(),
            ),
            BbtError::CapabilityError(what) => with_value("capability resolver: ", what.as_str()),
            BbtError::NoAdapterForCodec { codec, available } => {
                let mut m = with_two(
                    "no adapter can encode to codec '",
                    codec.as_str(),
                    "' (available: ",
                    available.as_str(),
                );
                m.append(")");
                m
            },
            BbtError::GraphNotFound(path) => with_value("graph file not found: ", path.as_str()),
            BbtError::InvalidGraph { path, reason } => with_two(
                "invalid graph file ",
                path.as_str(),
                ": ",
                reason.as_str(),
            ),
            BbtError::ManifestNotFound(path) => with_value(
                "manifest file not found: ",
                path.as_str(),
            ),
            BbtError::InvalidManifest { path, reason } => with_two(
                "invalid manifest ",
                path.as_str(),
                ": ",
                reason.as_str(),
            ),
            BbtError::Io(what) => with_value("IO error: ", what.as_str()),
        }
    }
}

/// What can go wrong in a single encode. Paths are held as text.
#[derive(Debug)]
pub enum AdapterError {
    BinaryNotFound { binary: String },
    EncodeFailed { path: String, stderr: String },
    DecodeFailed { path: String, stderr: String },
    UnsupportedCodec(String),
    Io(String),
}

impl AdapterError {
    pub open spec fn text(&self) -> Seq<char> {
        match self {
            AdapterError::BinaryNotFound { binary } => "required binary '"@ + binary@
                + "' not found in PATH"@,
            AdapterError::EncodeFailed { path, stderr } => "encode failed for "@ + path@ + ": "@
                + stderr@,
            AdapterError::DecodeFailed { path, stderr } => "intermediate decode failed for "@ + path@
                + ": "@ + stderr@,
            AdapterError::UnsupportedCodec(codec) => "unsupported codec: '"@ + codec@ + "'"@,
            AdapterError::Io(what) => "IO error during encode: "@ + what@,
        }
    }

    /// The message of the error.
    pub fn message(&self) -> (r: String)
        ensures
            r@ == self.text(),
    {
        match self {
            AdapterError::BinaryNotFound { binary } => {
                let mut m = with_value("required binary '", binary.as_str());
                m.append("' not found in PATH");
                m
            },
            AdapterError::EncodeFailed { path, stderr } => with_two(
                "encode failed for ",
                path.as_str(),
                ": ",
                stderr.as_str(),
            ),
            AdapterError::DecodeFailed { path, stderr } => with_two(
                "intermediate decode failed for ",
                path.as_str(),
                ": ",
                stderr.as_str(),
            ),
            AdapterError::UnsupportedCodec(codec) => {
                let mut m = with_value("unsupported codec: '", codec.as_str());
                m.append("'");
                m
            },
            AdapterError::Io(what) => with_value("IO error during encode: ", what.as_str()),
        }
    }
}

// ---- laws -----------------------------------------------------------------

/// An error reads as what it is about, with the file or the name it is of before
/// the reason.
pub proof fn law_errors_say_what_they_are_about(e: BbtError, r: String)
    requires
        call_ensures(BbtError::message, (&e,), r),
    ensures
        e matches BbtError::FileNotFound(p) ==> r@ == "file not found: "@ + p@,
        e matches BbtError::ProbeFailed { path, reason } ==> r@ == "probe failed for "@ + path@
            + ": "@ + reason@,
        e matches BbtError::NoAudioTrack(p) ==> r@ == "no audio track found in "@ + p@,
        e matches BbtError::ProfileNotFound(id) ==> r@ == "profile not found: '"@ + id@ + "'"@,
        e matches BbtError::InvalidProfile { path, reason } ==> r@ == "invalid profile file "@
            + path@ + ": "@ + reason@,
        e matches BbtError::CapabilityError(what) ==> r@ == "capability resolver: "@ + what@,
        e matches BbtError::NoAdapterForCodec { codec, available } ==> r@
            == "no adapter can encode to codec '"@ + codec@ + "' (available: "@ + available@ + ")"@,
        e matches BbtError::GraphNotFound(p) ==> r@ == "graph file not found: "@ + p@,
        e matches BbtError::InvalidGraph { path, reason } ==> r@ == "invalid graph file "@ + path@
            + ": "@ + reason@,
        e matches BbtError::ManifestNotFound(p) ==> r@ == "manifest file not found: "@ + p@,
        e matches BbtError::InvalidManifest { path, reason } ==> r@ == "invalid manifest "@ + path@
            + ": "@ + reason@,
        e matches BbtError::Io(what) ==> r@ == "IO error: "@ + what@,
{
}

/// An error of an encode reads as the stage that failed, with its file before
/// what the program said.
pub proof fn law_encode_errors_say_what_failed(e: AdapterError, r: String)
    requires
        call_ensures(AdapterError::message, (&e,), r),
    ensures
        e matches AdapterError::BinaryNotFound { binary } ==> r@ == "required binary '"@ + binary@
            + "' not found in PATH"@,
        e matches AdapterError::EncodeFailed { path, stderr } ==> r@ == "encode failed for "@
            + path@ + ": "@ + stderr@,
        e matches AdapterError::DecodeFailed { path, stderr } ==> r@
            == "intermediate decode failed for "@ + path@ + ": "@ + stderr@,
        e matches AdapterError::UnsupportedCodec(codec) ==> r@ == "unsupported codec: '"@ + codec@
            + "'"@,
        e matches AdapterError::Io(what) ==> r@ == "IO error during encode: "@ + what@,
{
}

} // verus!
