//! Format tags: the container formats that detection can report.

use vstd::prelude::*;

verus! {

/// The container format detected for an image, or `Unknown` when detection
/// found none.
#[derive(Clone, Copy, Debug, PartialEq, Eq, Structural)]
pub enum FormatTag {
    Png,
    Jpeg,
    Gif,
    WebP,
    Pnm,
    Tiff,
    Tga,
    Dds,
    Bmp,
    Ico,
    Hdr,
    OpenExr,
    Farbfeld,
    Avif,
    Qoi,
    Pcx,
    Unknown,
}

/// The tag that a format's name stands for; `Unknown` for any other text.
pub open spec fn tag_of_name(name: Seq<char>) -> FormatTag {
    if name == "Png"@ {
        FormatTag::Png
    } else if name == "Jpeg"@ {
        FormatTag::Jpeg
    } else if name == "Gif"@ {
        FormatTag::Gif
    } else if name == "WebP"@ {
        FormatTag::WebP
    } else if name == "Pnm"@ {
        FormatTag::Pnm
    } else if name == "Tiff"@ {
        FormatTag::Tiff
    } else if name == "Tga"@ {
        FormatTag::Tga
    } else if name == "Dds"@ {
        FormatTag::Dds
    } else if name == "Bmp"@ {
        FormatTag::Bmp
    } else if name == "Ico"@ {
        FormatTag::Ico
    } else if name == "Hdr"@ {
        FormatTag::Hdr
    } else if name == "OpenExr"@ {
        FormatTag::OpenExr
    } else if name == "Farbfeld"@ {
        FormatTag::Farbfeld
    } else if name == "Avif"@ {
        FormatTag::Avif
    } else if name == "Qoi"@ {
        FormatTag::Qoi
    } else if name == "Pcx"@ {
        FormatTag::Pcx
    } else {
        FormatTag::Unknown
    }
}

/// Whether a name is that of a format with a tag of its own.
pub open spec fn known_format_name(name: Seq<char>) -> bool {
    tag_of_name(name) != FormatTag::Unknown
}

/// The tag for an optional format name: `Unknown` when there is none.
pub open spec fn tag_of(name: Option<Seq<char>>) -> FormatTag {
    match name {
        Some(text) => tag_of_name(text),
        None => FormatTag::Unknown,
    }
}

/// The lower-case label under which a tag is reported.
pub open spec fn label_of(tag: FormatTag) -> Seq<char> {
    match tag {
        FormatTag::Png => "png"@,
        FormatTag::Jpeg => "jpeg"@,
        FormatTag::Gif => "gif"@,
        FormatTag::WebP => "webp"@,
        FormatTag::Pnm => "pnm"@,
        FormatTag::Tiff => "tiff"@,
        FormatTag::Tga => "tga"@,
        FormatTag::Dds => "dds"@,
        FormatTag::Bmp => "bmp"@,
        FormatTag::Ico => "ico"@,
        FormatTag::Hdr => "hdr"@,
        FormatTag::OpenExr => "openexr"@,
        FormatTag::Farbfeld => "farbfeld"@,
        FormatTag::Avif => "avif"@,
        FormatTag::Qoi => "qoi"@,
        FormatTag::Pcx => "pcx"@,
        FormatTag::Unknown => "unknown"@,
    }
}

/// Only the tag `Unknown` reads `unknown`.
pub proof fn lemma_label_unknown(tag: FormatTag)
    ensures
        label_of(tag) == "unknown"@ <==> tag == FormatTag::Unknown,
{
    reveal_strlit("unknown");
    reveal_strlit("png");
    reveal_strlit("jpeg");
    reveal_strlit("gif");
    reveal_strlit("webp");
    reveal_strlit("pnm");
    reveal_strlit("tiff");
    reveal_strlit("tga");
    reveal_strlit("dds");
    reveal_strlit("bmp");
    reveal_strlit("ico");
    reveal_strlit("hdr");
    reveal_strlit("openexr");
    reveal_strlit("farbfeld");
    reveal_strlit("avif");
    reveal_strlit("qoi");
    reveal_strlit("pcx");
    if tag != FormatTag::Unknown {
        assert(label_of(tag).len() != 7 || label_of(tag)[0] != 'u');
        assert("unknown"@.len() == 7 && "unknown"@[0] == 'u');
    }
}

/// Whether `name` reads exactly `text`.
fn reads(name: &String, text: &str) -> (r: bool)
    ensures
        r == (name@ == text@),
{
    let other = text.to_owned();
    *name == other
}

impl FormatTag {
    /// The tag that a format's name stands for.
    pub fn from_name(name: &String) -> (r: FormatTag)
        ensures
            r == tag_of_name(name@),
    {
        if reads(name, "Png") {
            FormatTag::Png
        } else if reads(name, "Jpeg") {
            FormatTag::Jpeg
        } else if reads(name, "Gif") {
            FormatTag::Gif
        } else if reads(name, "WebP") {
            FormatTag::WebP
        } else if reads(name, "Pnm") {
            FormatTag::Pnm
        } else if reads(name, "Tiff") {
            FormatTag::Tiff
        } else if reads(name, "Tga") {
            FormatTag::Tga
        } else if reads(name, "Dds") {
            FormatTag::Dds
        } else if reads(name, "Bmp") {
            FormatTag::Bmp
        } else if reads(name, "Ico") {
            FormatTag::Ico
        } else if reads(name, "Hdr") {
            FormatTag::Hdr
        } else if reads(name, "OpenExr") {
            FormatTag::OpenExr
        } else if reads(name, "Farbfeld") {
            FormatTag::Farbfeld
        } else if reads(name, "Avif") {
            FormatTag::Avif
        } else if reads(name, "Qoi") {
            FormatTag::Qoi
        } else if reads(name, "Pcx") {
            FormatTag::Pcx
        } else {
            FormatTag::Unknown
        }
    }

    /// The tag for an optional format name.
    pub fn from_detected(name: &Option<String>) -> (r: FormatTag)
        ensures
            r == tag_of(crate::codec::name_view(*name)),
            (*name matches Some(text) && known_format_name(text@)) ==> r != FormatTag::Unknown,
            *name is None ==> r == FormatTag::Unknown,
    {
        match name {
            Some(text) => FormatTag::from_name(text),
            None => FormatTag::Unknown,
        }
    }

    /// The lower-case label under which the tag is reported.
    pub fn label(&self) -> (r: String)
        ensures
            r@ == label_of(*self),
            r@ == "unknown"@ <==> *self == FormatTag::Unknown,
    {
        proof {
            lemma_label_unknown(*self);
        }
        let text = match self {
            FormatTag::Png => "png",
            FormatTag::Jpeg => "jpeg",
            FormatTag::Gif => "gif",
            FormatTag::WebP => "webp",
            FormatTag::Pnm => "pnm",
            FormatTag::Tiff => "tiff",
            FormatTag::Tga => "tga",
            FormatTag::Dds => "dds",
            FormatTag::Bmp => "bmp",
            FormatTag::Ico => "ico",
            FormatTag::Hdr => "hdr",
            FormatTag::OpenExr => "openexr",
            FormatTag::Farbfeld => "farbfeld",
            FormatTag::Avif => "avif",
            FormatTag::Qoi => "qoi",
            FormatTag::Pcx => "pcx",
            FormatTag::Unknown => "unknown",
        };
        text.to_owned()
    }
}

} // verus!
