//! Speech-transcription support library.
//!
//! The library models the data that flows through a transcription pipeline:
//! the catalogue of recognition models ([`ModelType`]), validation of an
//! acquired model download, the inference configuration, the mapping of raw
//! engine output into a [`transcript::Transcript`], and the rendering of a
//! transcript as plain text, WebVTT or SubRip subtitles.
//!
//! Audio decoding and the recognition engine itself live outside this
//! library; callers hand in plain bytes, samples and raw segments and get
//! plain values back.
use vstd::prelude::*;

pub mod engine;
pub mod textfmt;
pub mod transcript;

verus! {

/// Error raised when the bytes received for a model download do not match
/// what the server declared they would be.
#[derive(Debug, Clone, Copy, PartialEq, Eq, Structural)]
pub enum AcquireError {
    /// The response carried no declared content length.
    MissingContentLength,
    /// The stream ended early or yielded extra bytes: the number of bytes
    /// received differs from the declared content length.
    LengthMismatch,
}

/// Validates an acquired model download against the content length the
/// server declared. Returns the buffer unchanged exactly when a length was
/// declared and the buffer holds exactly that many bytes; otherwise the
/// buffer is withheld and an error says why.
pub fn check_download(declared_len: Option<usize>, bytes: Vec<u8>) -> (r: Result<
    Vec<u8>,
    AcquireError,
>)
    ensures
        match r {
            Ok(b) => {
                &&& declared_len matches Some(n) && b@.len() == n
                &&& b@ == bytes@
            },
            Err(AcquireError::MissingContentLength) => declared_len is None,
            Err(AcquireError::LengthMismatch) => {
                &&& declared_len matches Some(n) && bytes@.len() != n
            },
        },
{
    match declared_len {
        Some(n) => {
            if bytes.len() == n {
                Ok(bytes)
            } else {
                Err(AcquireError::LengthMismatch)
            }
        },
        None => Err(AcquireError::MissingContentLength),
    }
}

/// The named variants of the recognition model, each with an English-only
/// or multilingual flavor.
#[derive(Debug, Clone, Copy, PartialEq, Eq, Structural)]
pub enum ModelType {
    /// Tiny model, finetuned for English. About 75 MB.
    TinyEn,
    /// Tiny model. About 75 MB.
    Tiny,
    /// Base model, finetuned for English. About 142 MB.
    BaseEn,
    /// Base model. About 142 MB.
    Base,
    /// Small model, finetuned for English. About 466 MB.
    SmallEn,
    /// Small model. About 466 MB.
    Small,
    /// Medium model, finetuned for English. About 1.5 GB.
    MediumEn,
    /// Medium model. About 1.5 GB.
    Medium,
    /// Large model, first version. About 2.9 GB.
    LargeV1,
    /// Large model, second version. About 2.9 GB.
    LargeV2,
    /// Large model, third version. About 2.9 GB.
    LargeV3,
}

/// The file name under which each model variant is published.
pub open spec fn spec_url_suffix(m: ModelType) -> Seq<char> {
    match m {
        ModelType::TinyEn => "tiny.en.bin"@,
        ModelType::Tiny => "tiny.bin"@,
        ModelType::BaseEn => "base.en.bin"@,
        ModelType::Base => "base.bin"@,
        ModelType::SmallEn => "small.en.bin"@,
        ModelType::Small => "small.bin"@,
        ModelType::MediumEn => "medium.en.bin"@,
        ModelType::Medium => "medium.bin"@,
        ModelType::LargeV1 => "large-v1.bin"@,
        ModelType::LargeV2 => "large-v2.bin"@,
        ModelType::LargeV3 => "large-v3.bin"@,
    }
}

/// The canonical download location of each model variant: one fixed
/// host/path template followed by the variant's file name.
pub open spec fn spec_url(m: ModelType) -> Seq<char> {
    "https://huggingface.co/ggerganov/whisper.cpp/resolve/main/ggml-"@ + spec_url_suffix(m)
}

/// The approximate size, in bytes, of each model variant's weight file.
pub open spec fn spec_approx_size(m: ModelType) -> int {
    match m {
        ModelType::TinyEn => 75_000_000,
        ModelType::Tiny => 75_000_000,
        ModelType::BaseEn => 142_000_000,
        ModelType::Base => 142_000_000,
        ModelType::SmallEn => 466_000_000,
        ModelType::Small => 466_000_000,
        ModelType::MediumEn => 1_500_000_000,
        ModelType::Medium => 1_500_000_000,
        ModelType::LargeV1 => 2_900_000_000,
        ModelType::LargeV2 => 2_900_000_000,
        ModelType::LargeV3 => 2_900_000_000,
    }
}

impl ModelType {
    /// The canonical download URL of this model variant.
    pub fn url(&self) -> (r: String)
        ensures
            r@ == spec_url(*self),
    {
        let mut r = String::from_str(
            "https://huggingface.co/ggerganov/whisper.cpp/resolve/main/ggml-",
        );
        let suffix: &str = match self {
            ModelType::TinyEn => "tiny.en.bin",
            ModelType::Tiny => "tiny.bin",
            ModelType::BaseEn => "base.en.bin",
            ModelType::Base => "base.bin",
            ModelType::SmallEn => "small.en.bin",
            ModelType::Small => "small.bin",
            ModelType::MediumEn => "medium.en.bin",
            ModelType::Medium => "medium.bin",
            ModelType::LargeV1 => "large-v1.bin",
            ModelType::LargeV2 => "large-v2.bin",
            ModelType::LargeV3 => "large-v3.bin",
        };
        r.append(suffix);
        r
    }

    /// The approximate size, in bytes, of this model variant's weight
    /// file.
    pub fn approx_size_bytes(&self) -> (n: u64)
        ensures
            n == spec_approx_size(*self),
    {
        match self {
            ModelType::TinyEn => 75_000_000,
            ModelType::Tiny => 75_000_000,
            ModelType::BaseEn => 142_000_000,
            ModelType::Base => 142_000_000,
            ModelType::SmallEn => 466_000_000,
            ModelType::Small => 466_000_000,
            ModelType::MediumEn => 1_500_000_000,
            ModelType::Medium => 1_500_000_000,
            ModelType::LargeV1 => 2_900_000_000,
            ModelType::LargeV2 => 2_900_000_000,
            ModelType::LargeV3 => 2_900_000_000,
        }
    }

    /// Every model variant, in catalogue order.
    pub fn all() -> (v: Vec<ModelType>)
        ensures
            v@ == seq![
                ModelType::TinyEn,
                ModelType::Tiny,
                ModelType::BaseEn,
                ModelType::Base,
                ModelType::SmallEn,
                ModelType::Small,
                ModelType::MediumEn,
                ModelType::Medium,
                ModelType::LargeV1,
                ModelType::LargeV2,
                ModelType::LargeV3,
            ],
    {
        let mut v: Vec<ModelType> = Vec::new();
        v.push(ModelType::TinyEn);
        v.push(ModelType::Tiny);
        v.push(ModelType::BaseEn);
        v.push(ModelType::Base);
        v.push(ModelType::SmallEn);
        v.push(ModelType::Small);
        v.push(ModelType::MediumEn);
        v.push(ModelType::Medium);
        v.push(ModelType::LargeV1);
        v.push(ModelType::LargeV2);
        v.push(ModelType::LargeV3);
        proof {
            assert(v@ =~= seq![
                ModelType::TinyEn,
                ModelType::Tiny,
                ModelType::BaseEn,
                ModelType::Base,
                ModelType::SmallEn,
                ModelType::Small,
                ModelType::MediumEn,
                ModelType::Medium,
                ModelType::LargeV1,
                ModelType::LargeV2,
                ModelType::LargeV3,
            ]);
        }
        v
    }
}

} // verus!
