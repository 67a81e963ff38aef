use mutter::{check_download, AcquireError, ModelType};
use mutter::textfmt::{dec_u64, sanitize, trim};

const URL_BASE: &str = "https://huggingface.co/ggerganov/whisper.cpp/resolve/main/ggml-";

#[test]
fn model_urls_follow_the_template() {
    let expected = [
        (ModelType::TinyEn, "tiny.en.bin"),
        (ModelType::Tiny, "tiny.bin"),
        (ModelType::BaseEn, "base.en.bin"),
        (ModelType::Base, "base.bin"),
        (ModelType::SmallEn, "small.en.bin"),
        (ModelType::Small, "small.bin"),
        (ModelType::MediumEn, "medium.en.bin"),
        (ModelType::Medium, "medium.bin"),
        (ModelType::LargeV1, "large-v1.bin"),
        (ModelType::LargeV2, "large-v2.bin"),
        (ModelType::LargeV3, "large-v3.bin"),
    ];
    for (model, suffix) in expected {
        assert_eq!(model.url(), format!("{URL_BASE}{suffix}"));
    }
}

#[test]
fn model_catalogue_lists_every_variant_once() {
    let all = ModelType::all();
    assert_eq!(all.len(), 11);
    for (i, a) in all.iter().enumerate() {
        for b in &all[i + 1..] {
            assert!(a != b);
        }
    }
}

#[test]
fn model_sizes_grow_with_the_variant() {
    assert_eq!(ModelType::TinyEn.approx_size_bytes(), 75_000_000);
    assert_eq!(ModelType::Base.approx_size_bytes(), 142_000_000);
    assert_eq!(ModelType::Small.approx_size_bytes(), 466_000_000);
    assert_eq!(ModelType::MediumEn.approx_size_bytes(), 1_500_000_000);
    assert_eq!(ModelType::LargeV3.approx_size_bytes(), 2_900_000_000);
    for m in ModelType::all() {
        assert!(m.approx_size_bytes() >= 75_000_000);
    }
}

#[test]
fn download_with_matching_length_is_accepted() {
    let bytes = vec![1_u8, 2, 3];
    let out = check_download(Some(3), bytes.clone()).expect("lengths match");
    assert_eq!(out, bytes);
}

#[test]
fn short_download_is_rejected() {
    let bytes = vec![1_u8, 2, 3];
    assert_eq!(check_download(Some(5), bytes), Err(AcquireError::LengthMismatch));
}

#[test]
fn oversized_download_is_rejected() {
    let bytes = vec![1_u8, 2, 3, 4];
    assert_eq!(check_download(Some(3), bytes), Err(AcquireError::LengthMismatch));
}

#[test]
fn download_without_declared_length_is_rejected() {
    let bytes = vec![1_u8, 2, 3];
    assert_eq!(check_download(None, bytes), Err(AcquireError::MissingContentLength));
}

#[test]
fn trim_removes_surrounding_whitespace_only() {
    assert_eq!(trim("  spaced out \t\n"), "spaced out");
    assert_eq!(trim("untouched"), "untouched");
    assert_eq!(trim(" \u{00A0}\u{3000} "), "");
    assert_eq!(trim(""), "");
}

#[test]
fn sanitize_rewrites_each_separator_occurrence() {
    assert_eq!(sanitize("a --> b --> c"), "a -> b -> c");
    assert_eq!(sanitize("no separator"), "no separator");
    assert_eq!(sanitize("-->-->"), "->->");
    // Scanning is left to right over non-overlapping occurrences.
    assert_eq!(sanitize("--->"), "-->");
}

#[test]
fn decimal_rendering_has_no_leading_zeros() {
    assert_eq!(dec_u64(0), "0");
    assert_eq!(dec_u64(7), "7");
    assert_eq!(dec_u64(1_234_567), "1234567");
}
