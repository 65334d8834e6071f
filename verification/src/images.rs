//! Image-listing logic of the authoring tool: which files count as images,
//! the data URL built for each, and the order of the listing.
//!
//! The embedding application reads each file's bytes; this module judges
//! the file name (on its lowercased form), builds the
//! `data:<mime>;base64,<payload>` URL, and sorts the records by name.

use base64::Engine;
use vstd::prelude::*;
use vstd::multiset::Multiset;
use vstd::seq_lib::group_to_multiset_ensures;
use vstd::string::StringExecFns;
use vstd::utf8::encode_utf8;
use crate::text::{has_suffix, lex_le, ends_with_chars, str_le, lemma_lex_le_refl, lemma_lex_le_total, lemma_lex_le_trans};

verus! {

broadcast use group_to_multiset_ensures;

/// The image formats the listing recognises.
#[derive(Clone, Copy, Debug, PartialEq, Eq, Structural)]
pub enum ImageKind {
    Png,
    Jpeg,
    Gif,
    Webp,
}

/// The MIME type of an image kind.
pub open spec fn mime_of(k: ImageKind) -> Seq<char> {
    match k {
        ImageKind::Png => "image/png"@,
        ImageKind::Jpeg => "image/jpeg"@,
        ImageKind::Gif => "image/gif"@,
        ImageKind::Webp => "image/webp"@,
    }
}

/// The lowercased form of a text.
pub uninterp spec fn lower_of(s: Seq<char>) -> Seq<char>;

/// Relies on str::to_lowercase: the result depends on the characters
/// alone.
#[verifier::external_body]
fn lowercase(s: &str) -> (r: String)
    ensures
        r@ == lower_of(s@),
{
    s.to_lowercase()
}

/// The standard base64 form of some bytes.
pub uninterp spec fn b64_of(b: Seq<u8>) -> Seq<char>;

/// Relies on the base64 crate's STANDARD engine: the padded encoding
/// yields four characters for every started group of three bytes, and
/// depends on the bytes alone.
#[verifier::external_body]
fn base64_encode(data: &Vec<u8>) -> (r: String)
    ensures
        r@ == b64_of(data@),
        r@.len() == 4 * ((data@.len() + 2) / 3),
{
    base64::engine::general_purpose::STANDARD.encode(data)
}

/// The kind a lowercased file name denotes, if any.
pub open spec fn classify_lower(s: Seq<char>) -> Option<ImageKind> {
    if has_suffix(s, ".png"@) {
        Some(ImageKind::Png)
    } else if has_suffix(s, ".jpg"@) || has_suffix(s, ".jpeg"@) {
        Some(ImageKind::Jpeg)
    } else if has_suffix(s, ".gif"@) {
        Some(ImageKind::Gif)
    } else if has_suffix(s, ".webp"@) {
        Some(ImageKind::Webp)
    } else {
        None
    }
}

/// Judges a file name: an image kind exactly when the lowercased name ends
/// in a recognised extension.
pub fn classify_image_name(name: &str) -> (r: Option<ImageKind>)
    ensures
        r == classify_lower(lower_of(name@)),
{
    let lower = lowercase(name);
    let l = lower.as_str();
    if ends_with_chars(l, ".png") {
        Some(ImageKind::Png)
    } else if ends_with_chars(l, ".jpg") || ends_with_chars(l, ".jpeg") {
        Some(ImageKind::Jpeg)
    } else if ends_with_chars(l, ".gif") {
        Some(ImageKind::Gif)
    } else if ends_with_chars(l, ".webp") {
        Some(ImageKind::Webp)
    } else {
        None
    }
}

/// The data URL of an image: `data:<mime>;base64,<payload>`.
pub open spec fn data_url_of(k: ImageKind, data: Seq<u8>) -> Seq<char> {
    "data:"@ + mime_of(k) + ";base64,"@ + b64_of(data)
}

/// Builds the data URL of one image file.
pub fn image_data_url(kind: ImageKind, data: &Vec<u8>) -> (r: String)
    ensures
        r@ == data_url_of(kind, data@),
{
    let mut s = String::from_str("data:");
    s.append(
        match kind {
            ImageKind::Png => "image/png",
            ImageKind::Jpeg => "image/jpeg",
            ImageKind::Gif => "image/gif",
            ImageKind::Webp => "image/webp",
        },
    );
    s.append(";base64,");
    let payload = base64_encode(data);
    s.append(payload.as_str());
    s
}

/// One image record of the listing.
pub struct ImageResource {
    pub name: String,
    pub path: String,
    pub data_url: String,
}

/// The mathematical value of an image record.
pub struct ImageResourceV {
    pub name: Seq<char>,
    pub path: Seq<char>,
    pub data_url: Seq<char>,
}

impl View for ImageResource {
    type V = ImageResourceV;

    open spec fn view(&self) -> ImageResourceV {
        ImageResourceV { name: self.name@, path: self.path@, data_url: self.data_url@ }
    }
}

/// The records an image listing holds.
pub open spec fn images_view(s: Seq<ImageResource>) -> Seq<ImageResourceV> {
    Seq::new(s.len(), |i: int| s[i]@)
}

/// Builds the record of one file, or nothing when its name denotes no
/// image: the per-entry compute step of the image listing.
pub fn make_image_resource(name: String, path: String, data: &Vec<u8>) -> (r: Option<
    ImageResource,
>)
    ensures
        match classify_lower(lower_of(name@)) {
            Some(k) => r matches Some(img) && img@ == (ImageResourceV {
                name: name@,
                path: path@,
                data_url: data_url_of(k, data@),
            }),
            None => r is None,
        },
{
    match classify_image_name(name.as_str()) {
        Some(k) => {
            let url = image_data_url(k, data);
            Some(ImageResource { name, path, data_url: url })
        },
        None => None,
    }
}

/// The image-listing order: by name, in the byte order of the names'
/// UTF-8 forms.
pub open spec fn image_le(a: ImageResourceV, b: ImageResourceV) -> bool {
    lex_le(encode_utf8(a.name), encode_utf8(b.name))
}

/// Whether an image listing stands in its order.
pub open spec fn sorted_images(s: Seq<ImageResourceV>) -> bool {
    forall|i: int, j: int| 0 <= i < j < s.len() ==> image_le(s[i], s[j])
}

/// Sorts an image listing by name; the records are exactly those that
/// came in.
pub fn sort_image_resources(images: Vec<ImageResource>) -> (r: Vec<ImageResource>)
    ensures
        sorted_images(images_view(r@)),
        r@.to_multiset() == images@.to_multiset(),
{
    let ghost orig = images@;
    let mut rest = images;
    let mut out: Vec<ImageResource> = Vec::new();
    proof {
        assert(out@.to_multiset().add(rest@.to_multiset()) =~= rest@.to_multiset());
    }
    while rest.len() > 0
        invariant
            out@.to_multiset().add(rest@.to_multiset()) == orig.to_multiset(),
            sorted_images(images_view(out@)),
            forall|i: int, j: int|
                0 <= i < out@.len() && 0 <= j < rest@.len() ==> image_le(
                    #[trigger] out@[i]@,
                    #[trigger] rest@[j]@,
                ),
        decreases rest@.len(),
    {
        let mut m: usize = 0;
        let mut k: usize = 1;
        proof {
            lemma_lex_le_refl(encode_utf8(rest@[0]@.name));
        }
        while k < rest.len()
            invariant
                m < k <= rest@.len(),
                forall|j: int| 0 <= j < k ==> image_le(rest@[m as int]@, #[trigger] rest@[j]@),
            decreases rest@.len() - k,
        {
            if str_le(rest[k].name.as_str(), rest[m].name.as_str()) {
                proof {
                    lemma_lex_le_refl(encode_utf8(rest@[k as int]@.name));
                    assert forall|j: int| 0 <= j < k + 1 implies image_le(
                        rest@[k as int]@,
                        #[trigger] rest@[j]@,
                    ) by {
                        if j < k {
                            lemma_lex_le_trans(
                                encode_utf8(rest@[k as int]@.name),
                                encode_utf8(rest@[m as int]@.name),
                                encode_utf8(rest@[j]@.name),
                            );
                        }
                    }
                }
                m = k;
            } else {
                proof {
                    lemma_lex_le_total(
                        encode_utf8(rest@[m as int]@.name),
                        encode_utf8(rest@[k as int]@.name),
                    );
                }
            }
            k = k + 1;
        }
        let ghost pre_out = out@;
        let ghost pre_rest = rest@;
        let x = rest.remove(m);
        out.push(x);
        proof {
            assert(out@ == pre_out.push(pre_rest[m as int]));
            assert(rest@ == pre_rest.remove(m as int));
            assert forall|i: int, j: int|
                0 <= i < j < images_view(out@).len() implies image_le(
                    images_view(out@)[i],
                    images_view(out@)[j],
                ) by {
                assert(images_view(out@)[i] == out@[i]@);
                assert(images_view(out@)[j] == out@[j]@);
                assert(out@[i] == pre_out[i]);
                if j < pre_out.len() {
                    assert(images_view(pre_out)[i] == pre_out[i]@);
                    assert(images_view(pre_out)[j] == pre_out[j]@);
                    assert(image_le(images_view(pre_out)[i], images_view(pre_out)[j]));
                } else {
                    assert(out@[j] == pre_rest[m as int]);
                    assert(image_le(pre_out[i]@, pre_rest[m as int]@));
                }
            }
            assert forall|i: int, j: int|
                0 <= i < out@.len() && 0 <= j < rest@.len() implies image_le(
                    #[trigger] out@[i]@,
                    #[trigger] rest@[j]@,
                ) by {
                let oj = if j < m { j } else { j + 1 };
                assert(rest@[j] == pre_rest[oj]);
                if i < pre_out.len() {
                    assert(image_le(out@[i]@, rest@[j]@));
                } else {
                    assert(out@[i] == pre_rest[m as int]);
                    assert(image_le(pre_rest[m as int]@, pre_rest[oj]@));
                }
            }
            assert(out@.to_multiset() =~= pre_out.to_multiset().insert(pre_rest[m as int]));
            assert(rest@.to_multiset() =~= pre_rest.to_multiset().remove(pre_rest[m as int]));
            assert(out@.to_multiset().add(rest@.to_multiset()) =~= pre_out.to_multiset().add(
                pre_rest.to_multiset(),
            ));
        }
    }
    proof {
        assert(rest@.to_multiset() =~= Multiset::<ImageResource>::empty());
        assert(out@.to_multiset().add(Multiset::<ImageResource>::empty()) =~= out@.to_multiset());
    }
    out
}

} // verus!
