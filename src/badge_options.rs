//! Style preferences of the generated badges and the renderers of each
//! output dialect.

use vstd::prelude::*;
use vstd::utf8::encode_utf8;
use crate::encoding::{url_encode, url_encoded};
use crate::text::{opt_view, push_str};

verus! {

/// Visual style keyword of the badge image service.
#[derive(Clone, Copy, Debug, PartialEq, Eq, Structural)]
pub enum BadgeStyle {
    Flat,
    FlatSquare,
    Plastic,
    ForTheBadge,
    Social,
}

impl BadgeStyle {
    pub open spec fn name_spec(self) -> Seq<char> {
        match self {
            BadgeStyle::Flat => "flat"@,
            BadgeStyle::FlatSquare => "flat-square"@,
            BadgeStyle::Plastic => "plastic"@,
            BadgeStyle::ForTheBadge => "for-the-badge"@,
            BadgeStyle::Social => "social"@,
        }
    }

    /// The keyword as the badge service spells it.
    pub fn name(&self) -> (r: &'static str)
        ensures
            r@ == self.name_spec(),
    {
        match self {
            BadgeStyle::Flat => "flat",
            BadgeStyle::FlatSquare => "flat-square",
            BadgeStyle::Plastic => "plastic",
            BadgeStyle::ForTheBadge => "for-the-badge",
            BadgeStyle::Social => "social",
        }
    }
}

/// Which counter the badges display.
#[derive(Clone, Copy, Debug, PartialEq, Eq, Structural)]
pub enum DownloadCount {
    Total,
    Unique,
}

impl DownloadCount {
    pub open spec fn field_name_spec(self) -> Seq<char> {
        match self {
            DownloadCount::Total => "mod_downloads"@,
            DownloadCount::Unique => "mod_unique_downloads"@,
        }
    }

    /// Name of the counter's field in the published document.
    pub fn field_name(&self) -> (r: &'static str)
        ensures
            r@ == self.field_name_spec(),
    {
        match self {
            DownloadCount::Total => "mod_downloads",
            DownloadCount::Unique => "mod_unique_downloads",
        }
    }

    pub open spec fn label_spec(self) -> Seq<char> {
        match self {
            DownloadCount::Total => "Total downloads"@,
            DownloadCount::Unique => "Unique downloads"@,
        }
    }

    /// Human-readable name of the counter.
    pub fn label(&self) -> (r: &'static str)
        ensures
            r@ == self.label_spec(),
    {
        match self {
            DownloadCount::Total => "Total downloads",
            DownloadCount::Unique => "Unique downloads",
        }
    }
}

/// Output dialect of a badge block.
#[derive(Clone, Copy, Debug, PartialEq, Eq, Structural)]
pub enum BadgeFormat {
    Markdown,
    Url,
    Rst,
    AsciiDoc,
    Html,
    GithubHtml,
}

impl BadgeFormat {
    pub open spec fn name_spec(self) -> Seq<char> {
        match self {
            BadgeFormat::Markdown => "markdown"@,
            BadgeFormat::AsciiDoc => "asciiDoc"@,
            BadgeFormat::Html => "html"@,
            BadgeFormat::GithubHtml => "gitHub-Html"@,
            BadgeFormat::Rst => "rst"@,
            BadgeFormat::Url => "url"@,
        }
    }

    /// The dialect's name, also used as the fence tag of its block.
    pub fn name(&self) -> (r: &'static str)
        ensures
            r@ == self.name_spec(),
    {
        match self {
            BadgeFormat::Markdown => "markdown",
            BadgeFormat::AsciiDoc => "asciiDoc",
            BadgeFormat::Html => "html",
            BadgeFormat::GithubHtml => "gitHub-Html",
            BadgeFormat::Rst => "rst",
            BadgeFormat::Url => "url",
        }
    }
}

/// An optional color override: `None` leaves the badge service's default,
/// `Some` holds `#` followed by six hexadecimal digits.
#[derive(Clone, Debug)]
pub struct Color(pub Option<String>);

pub open spec fn is_hex_char(c: char) -> bool {
    ('0' <= c && c <= '9') || ('a' <= c && c <= 'f') || ('A' <= c && c <= 'F')
}

/// ASCII lowercase of a character; other characters are unchanged.
pub open spec fn ascii_lower(c: char) -> char {
    if 'A' <= c && c <= 'Z' {
        ((c as u32 + 32) as u8) as char
    } else {
        c
    }
}

/// The word `default` in any ASCII case.
pub open spec fn is_default_word(s: Seq<char>) -> bool {
    s.len() == 7 && forall|i: int| 0 <= i < 7 ==> #[trigger] ascii_lower(s[i]) == "default"@[i]
}

/// The text without one leading `#`, if it has one.
pub open spec fn strip_hash(s: Seq<char>) -> Seq<char> {
    if s.len() > 0 && s[0] == '#' {
        s.drop_first()
    } else {
        s
    }
}

/// The lowercase form of hexadecimal digits.
pub open spec fn lower_hex(h: Seq<char>) -> Seq<char> {
    h.map_values(|c: char| ascii_lower(c))
}

/// What a color setting parses to: `Ok(None)` for the default, `Ok(Some(hex))`
/// for six hexadecimal digits after an optional `#`, in the canonical form of
/// `#` and lowercase digits, else the reason it is refused.
pub open spec fn parse_color(s: Seq<char>) -> Result<Option<Seq<char>>, Seq<char>> {
    let hex = strip_hash(s);
    if is_default_word(s) {
        Ok(None)
    } else if encode_utf8(hex).len() != 6 {
        Err("Color must be 6 hex digits"@)
    } else if !(forall|i: int| 0 <= i < hex.len() ==> is_hex_char(#[trigger] hex[i])) {
        Err("Color must contain only hex digits"@)
    } else {
        Ok(Some(seq!['#'] + lower_hex(hex)))
    }
}

fn lower_ascii(c: char) -> (r: char)
    ensures
        r == ascii_lower(c),
{
    if 'A' <= c && c <= 'Z' {
        ((c as u32 + 32) as u8) as char
    } else {
        c
    }
}

fn is_default_text(s: &str) -> (r: bool)
    ensures
        r == is_default_word(s@),
{
    let target = "default";
    proof {
        reveal_strlit("default");
    }
    let n = s.unicode_len();
    if n != 7 {
        return false;
    }
    let mut i: usize = 0;
    while i < 7
        invariant
            s@.len() == 7,
            target@ == "default"@,
            target@.len() == 7,
            forall|j: int| 0 <= j < i ==> #[trigger] ascii_lower(s@[j]) == "default"@[j],
        decreases 7 - i,
    {
        if lower_ascii(s.get_char(i)) != target.get_char(i) {
            return false;
        }
        i = i + 1;
    }
    true
}

impl Color {
    /// No override.
    pub fn none() -> (r: Color)
        ensures
            r.0 is None,
    {
        Color(None)
    }

    pub fn is_none(&self) -> (r: bool)
        ensures
            r == self.0 is None,
    {
        self.0.is_none()
    }

    pub fn is_some(&self) -> (r: bool)
        ensures
            r == self.0 is Some,
    {
        self.0.is_some()
    }

    pub open spec fn text_spec(&self) -> Seq<char> {
        match self.0 {
            Some(c) => c@,
            None => "default"@,
        }
    }

    /// The color as shown to the user: its hex form, or `default`.
    pub fn text(&self) -> (r: String)
        ensures
            r@ == self.text_spec(),
    {
        match &self.0 {
            Some(c) => c.clone(),
            None => String::from_str("default"),
        }
    }

    /// Parses a color setting: `default` in any case, or six hexadecimal
    /// digits with or without one leading `#`, kept as `#` and the digits in
    /// lowercase.
    pub fn from_str(s: &str) -> (r: Result<Color, &'static str>)
        ensures
            match (r, parse_color(s@)) {
                (Ok(c), Ok(None)) => c.0 is None,
                (Ok(c), Ok(Some(h))) => c.0 matches Some(t) && t@ == h,
                (Err(e), Err(m)) => e@ == m,
                _ => false,
            },
    {
        if is_default_text(s) {
            return Ok(Color(None));
        }
        let n = s.unicode_len();
        let k: usize = if n > 0 && s.get_char(0) == '#' {
            1
        } else {
            0
        };
        let hex = s.substring_char(k, n);
        proof {
            assert(s@.drop_first() =~= s@.subrange(1, n as int));
            assert(s@.subrange(0, n as int) =~= s@);
            assert(hex@ == strip_hash(s@));
        }
        if hex.as_bytes().len() != 6 {
            return Err("Color must be 6 hex digits");
        }
        let m = hex.unicode_len();
        let mut out = String::from_str("#");
        proof {
            reveal_strlit("#");
        }
        let mut i: usize = 0;
        while i < m
            invariant
                m == hex@.len(),
                i <= m,
                hex@ == strip_hash(s@),
                encode_utf8(hex@).len() == 6,
                !is_default_word(s@),
                forall|j: int| 0 <= j < i ==> is_hex_char(#[trigger] hex@[j]),
                out@ == seq!['#'] + lower_hex(hex@.subrange(0, i as int)),
            decreases m - i,
        {
            let c = hex.get_char(i);
            if !(('0' <= c && c <= '9') || ('a' <= c && c <= 'f') || ('A' <= c && c <= 'F')) {
                assert(!is_hex_char(hex@[i as int]));
                return Err("Color must contain only hex digits");
            }
            out.push(lower_ascii(c));
            proof {
                assert(lower_hex(hex@.subrange(0, i + 1)) =~= lower_hex(hex@.subrange(0, i as int)).push(
                    ascii_lower(c),
                ));
            }
            i = i + 1;
        }
        assert(hex@.subrange(0, m as int) =~= hex@);
        Ok(Color(Some(out)))
    }
}

/// Reads a stored color leniently: an invalid setting yields no override,
/// together with the reason to warn about.
pub fn deserialize_color(s: &str) -> (r: (Color, Option<&'static str>))
    ensures
        match parse_color(s@) {
            Ok(None) => r.0.0 is None && r.1 is None,
            Ok(Some(h)) => r.1 is None && (r.0.0 matches Some(t) && t@ == h),
            Err(m) => r.0.0 is None && (r.1 matches Some(e) && e@ == m),
        },
{
    match Color::from_str(s) {
        Ok(c) => (c, None),
        Err(e) => (Color(None), Some(e)),
    }
}

/// Style preferences of the generated badges.
#[derive(Clone, Debug)]
pub struct BadgePreferences {
    pub style: BadgeStyle,
    pub format: BadgeFormat,
    pub count: DownloadCount,
    pub label: String,
    pub label_color: Color,
    pub label_color_light_mode: Color,
    pub color: Color,
}

impl Default for BadgePreferences {
    fn default() -> (r: Self)
        ensures
            r.style == BadgeStyle::Flat,
            r.format == BadgeFormat::Markdown,
            r.count == DownloadCount::Total,
            r.label@ == "Nexus Downloads"@,
            r.label_color.0 is None,
            r.label_color_light_mode.0 is None,
            r.color.0 is None,
    {
        BadgePreferences {
            label: String::from_str("Nexus Downloads"),
            style: BadgeStyle::Flat,
            format: BadgeFormat::Markdown,
            count: DownloadCount::Total,
            label_color: Color(None),
            label_color_light_mode: Color(None),
            color: Color(None),
        }
    }
}

/// Percent-encoding of an optional color.
pub open spec fn encoded_color(c: Color) -> Option<Seq<char>> {
    match c.0 {
        Some(t) => Some(url_encoded(t@)),
        None => None,
    }
}

impl BadgePreferences {
    pub fn set_style(&mut self, style: BadgeStyle)
        ensures
            final(self).style == style,
            final(self).format == old(self).format,
            final(self).count == old(self).count,
            final(self).label == old(self).label,
            final(self).label_color == old(self).label_color,
            final(self).label_color_light_mode == old(self).label_color_light_mode,
            final(self).color == old(self).color,
    {
        self.style = style;
    }

    /// The style to request, or `None` for the service's own default (flat).
    pub fn style(&self) -> (r: Option<BadgeStyle>)
        ensures
            r == (if self.style == BadgeStyle::Flat { None } else { Some(self.style) }),
    {
        if self.style == BadgeStyle::Flat {
            None
        } else {
            Some(self.style)
        }
    }

    pub open spec fn describe_spec(&self) -> Seq<char> {
        "Style preferences:\n- Label: "@ + self.label@ + "\n- Count: "@ + self.count.label_spec()
            + "\n- Style: "@ + self.style.name_spec() + "\n- Format: "@ + self.format.name_spec()
            + "\n- Label color: "@ + self.label_color.text_spec() + "\n"@ + (
        if self.label_color_light_mode.0 is Some && self.format == BadgeFormat::GithubHtml {
            "- Label color light mode: "@ + self.label_color_light_mode.text_spec() + "\n"@
        } else {
            Seq::empty()
        }) + "- Color: "@ + self.color.text_spec() + "\n"@
    }

    /// A listing of the preferences, one per line.
    pub fn describe(&self) -> (r: String)
        ensures
            r@ == self.describe_spec(),
    {
        let mut s = String::from_str("Style preferences:\n- Label: ");
        push_str(&mut s, self.label.as_str());
        push_str(&mut s, "\n- Count: ");
        push_str(&mut s, self.count.label());
        push_str(&mut s, "\n- Style: ");
        push_str(&mut s, self.style.name());
        push_str(&mut s, "\n- Format: ");
        push_str(&mut s, self.format.name());
        push_str(&mut s, "\n- Label color: ");
        let lc = self.label_color.text();
        push_str(&mut s, lc.as_str());
        push_str(&mut s, "\n");
        if self.label_color_light_mode.is_some() && self.format == BadgeFormat::GithubHtml {
            push_str(&mut s, "- Label color light mode: ");
            let lm = self.label_color_light_mode.text();
            push_str(&mut s, lm.as_str());
            push_str(&mut s, "\n");
        }
        push_str(&mut s, "- Color: ");
        let c = self.color.text();
        push_str(&mut s, c.as_str());
        push_str(&mut s, "\n");
        assert(s@ =~= self.describe_spec());
        s
    }

    /// Whether `r` holds the percent-encoded values of these preferences for
    /// a document published at `json_url`.
    pub open spec fn encodes(&self, json_url: Seq<char>, r: EncodedFields) -> bool {
        &&& r.json_url@ == url_encoded(json_url)
        &&& r.label_text@ == url_encoded(self.label@)
        &&& r.badge_style == (if self.style == BadgeStyle::Flat { None } else { Some(self.style) })
        &&& opt_view(r.label_color) == encoded_color(self.label_color)
        &&& opt_view(r.label_color_light_mode) == encoded_color(self.label_color_light_mode)
        &&& opt_view(r.color) == encoded_color(self.color)
    }

    /// The percent-encoded values shared by every badge of a document.
    pub fn encoded_fields(&self, json_url: &str) -> (r: EncodedFields)
        ensures
            self.encodes(json_url@, r),
    {
        EncodedFields {
            json_url: url_encode(json_url),
            label_text: url_encode(self.label.as_str()),
            badge_style: self.style(),
            label_color: encode_color(&self.label_color),
            label_color_light_mode: encode_color(&self.label_color_light_mode),
            color: encode_color(&self.color),
        }
    }
}

fn encode_color(c: &Color) -> (r: Option<String>)
    ensures
        opt_view(r) == encoded_color(*c),
{
    match &c.0 {
        Some(t) => Some(url_encode(t.as_str())),
        None => None,
    }
}

/// The percent-encoded inputs that every badge renderer shares.
pub struct EncodedFields {
    pub json_url: String,
    pub label_text: String,
    pub badge_style: Option<BadgeStyle>,
    pub label_color: Option<String>,
    pub label_color_light_mode: Option<String>,
    pub color: Option<String>,
}

/// `key` followed by the value, or nothing when there is no value.
pub open spec fn opt_text(key: Seq<char>, v: Option<Seq<char>>) -> Seq<char> {
    match v {
        Some(t) => key + t,
        None => Seq::empty(),
    }
}

/// The style parameter, present only when a style other than flat is chosen.
pub open spec fn style_param(s: Option<BadgeStyle>) -> Seq<char> {
    match s {
        Some(st) => "&style="@ + st.name_spec(),
        None => Seq::empty(),
    }
}

fn push_opt(s: &mut String, key: &str, v: &Option<String>)
    ensures
        final(s)@ == old(s)@ + opt_text(key@, opt_view(*v)),
{
    match v {
        Some(t) => {
            push_str(s, key);
            push_str(s, t.as_str());
        },
        None => {},
    }
    assert(final(s)@ =~= old(s)@ + opt_text(key@, opt_view(*v)));
}

impl EncodedFields {
    /// The dynamic badge URL up to the label color.
    pub open spec fn url_prefix(&self, query: Seq<char>) -> Seq<char> {
        "https://img.shields.io/badge/dynamic/json?url="@ + self.json_url@ + "&query="@
            + url_encoded(query) + "&label="@ + self.label_text@ + style_param(self.badge_style)
            + opt_text("&color="@, opt_view(self.color))
    }

    /// The badge URL, with the label color when one is set, and the variant
    /// for light mode when `light_mode_valid` and a light mode color is set.
    pub open spec fn dynamic_badge_url_spec(&self, light_mode_valid: bool, query: Seq<char>) -> (
        Seq<char>,
        Option<Seq<char>>,
    ) {
        let prefix = self.url_prefix(query);
        (
            prefix + opt_text("&labelColor="@, opt_view(self.label_color)),
            match self.label_color_light_mode {
                Some(c) => if light_mode_valid {
                    Some(prefix + "&labelColor="@ + c@)
                } else {
                    None
                },
                None => None,
            },
        )
    }

    pub fn dynamic_badge_url(&self, light_mode_valid: bool, query: &str) -> (r: (
        String,
        Option<String>,
    ))
        ensures
            (r.0@, opt_view(r.1)) == self.dynamic_badge_url_spec(light_mode_valid, query@),
    {
        let mut badge_url = String::from_str("https://img.shields.io/badge/dynamic/json?url=");
        push_str(&mut badge_url, self.json_url.as_str());
        push_str(&mut badge_url, "&query=");
        let q = url_encode(query);
        push_str(&mut badge_url, q.as_str());
        push_str(&mut badge_url, "&label=");
        push_str(&mut badge_url, self.label_text.as_str());
        match self.badge_style {
            Some(style) => {
                push_str(&mut badge_url, "&style=");
                push_str(&mut badge_url, style.name());
            },
            None => {},
        }
        push_opt(&mut badge_url, "&color=", &self.color);
        proof {
            reveal_strlit("https://img.shields.io/badge/dynamic/json?url=");
            assert(badge_url@ =~= self.url_prefix(query@));
        }
        let light_mode_url = match &self.label_color_light_mode {
            Some(c) => if light_mode_valid {
                let mut u = badge_url.clone();
                push_str(&mut u, "&labelColor=");
                push_str(&mut u, c.as_str());
                Some(u)
            } else {
                None
            },
            None => None,
        };
        push_opt(&mut badge_url, "&labelColor=", &self.label_color);
        (badge_url, light_mode_url)
    }

    pub open spec fn with_link_spec(&self, query: Seq<char>, url: Seq<char>) -> Seq<char> {
        self.dynamic_badge_url_spec(false, query).0 + "&link="@ + url_encoded(url)
    }

    /// The badge URL that also links to `url`; it has no light mode variant.
    pub fn dynamic_badge_url_with_link(&self, query: &str, url: &str) -> (r: (
        String,
        Option<String>,
    ))
        ensures
            r.0@ == self.with_link_spec(query@, url@),
            r.1 is None,
    {
        let (mut badge_url, _) = self.dynamic_badge_url(false, query);
        push_str(&mut badge_url, "&link=");
        let l = url_encode(url);
        push_str(&mut badge_url, l.as_str());
        (badge_url, None)
    }
}

pub open spec fn img_tag(url: Seq<char>) -> Seq<char> {
    "<img src=\""@ + url + "\" alt=\"Nexus Downloads\">"@
}

impl BadgeFormat {
    /// An HTML image tag for the badge URL.
    pub fn html_img_tag(badge_url: &str) -> (r: String)
        ensures
            r@ == img_tag(badge_url@),
    {
        let mut s = String::from_str("<img src=\"");
        push_str(&mut s, badge_url);
        push_str(&mut s, "\" alt=\"Nexus Downloads\">");
        s
    }

    /// The badge URL and its light mode variant used by this dialect.
    pub open spec fn badge_urls(self, fields: EncodedFields, query: Seq<char>, link: Seq<char>) -> (
        Seq<char>,
        Option<Seq<char>>,
    ) {
        if link.len() == 0 || self == BadgeFormat::GithubHtml || self == BadgeFormat::Markdown {
            fields.dynamic_badge_url_spec(self == BadgeFormat::GithubHtml, query)
        } else {
            (fields.with_link_spec(query, link), None)
        }
    }

    /// The body of a badge block in this dialect.
    pub open spec fn badge_body(self, url: Seq<char>, light: Option<Seq<char>>, link: Seq<char>) -> Seq<
        char,
    > {
        match self {
            BadgeFormat::Markdown => if link.len() == 0 {
                "![Nexus Downloads]("@ + url + ")\n"@
            } else {
                "[![Nexus Downloads]("@ + url + ")]("@ + link + ")\n"@
            },
            BadgeFormat::AsciiDoc => "image:"@ + url + "[Nexus Downloads]\n"@,
            BadgeFormat::Html => img_tag(url) + "\n"@,
            BadgeFormat::GithubHtml => (if link.len() == 0 {
                Seq::empty()
            } else {
                "["@
            }) + match light {
                Some(l) => "<picture>\n    <source media=\"(prefers-color-scheme: dark)\" srcset=\""@
                    + url + "\">\n    "@ + img_tag(l) + "\n</picture>"@,
                None => img_tag(url),
            } + (if link.len() == 0 {
                Seq::empty()
            } else {
                "]("@ + link + ")"@
            }) + "\n"@,
            BadgeFormat::Rst => ".. image:: "@ + url + "\n  :alt: Nexus Downloads\n"@,
            BadgeFormat::Url => url + "\n"@,
        }
    }

    /// A fenced badge block in this dialect for the counter at `query`,
    /// linking to `link` where it is not empty.
    pub open spec fn badge_block(self, fields: EncodedFields, query: Seq<char>, link: Seq<char>) -> Seq<
        char,
    > {
        let (url, light) = self.badge_urls(fields, query, link);
        "```"@ + self.name_spec() + "\n"@ + self.badge_body(url, light, link) + "```\n"@
    }

    fn push_badge_body(&self, f: &mut String, badge_url: &String, light_mode_badge_url: &Option<String>, link_url: &str)
        ensures
            final(f)@ == old(f)@ + self.badge_body(badge_url@, opt_view(*light_mode_badge_url), link_url@),
    {
        let link_empty = link_url.is_empty();
        match self {
            BadgeFormat::Markdown => {
                if link_empty {
                    push_str(f, "![Nexus Downloads](");
                    push_str(f, badge_url.as_str());
                    push_str(f, ")\n");
                } else {
                    push_str(f, "[![Nexus Downloads](");
                    push_str(f, badge_url.as_str());
                    push_str(f, ")](");
                    push_str(f, link_url);
                    push_str(f, ")\n");
                }
            },
            BadgeFormat::AsciiDoc => {
                push_str(f, "image:");
                push_str(f, badge_url.as_str());
                push_str(f, "[Nexus Downloads]\n");
            },
            BadgeFormat::Html => {
                let tag = BadgeFormat::html_img_tag(badge_url.as_str());
                push_str(f, tag.as_str());
                push_str(f, "\n");
            },
            BadgeFormat::GithubHtml => {
                if !link_empty {
                    push_str(f, "[");
                }
                match light_mode_badge_url {
                    Some(light_url) => {
                        push_str(
                            f,
                            "<picture>\n    <source media=\"(prefers-color-scheme: dark)\" srcset=\"",
                        );
                        push_str(f, badge_url.as_str());
                        push_str(f, "\">\n    ");
                        let tag = BadgeFormat::html_img_tag(light_url.as_str());
                        push_str(f, tag.as_str());
                        push_str(f, "\n</picture>");
                    },
                    None => {
                        let tag = BadgeFormat::html_img_tag(badge_url.as_str());
                        push_str(f, tag.as_str());
                    },
                }
                if !link_empty {
                    push_str(f, "](");
                    push_str(f, link_url);
                    push_str(f, ")");
                }
                push_str(f, "\n");
            },
            BadgeFormat::Rst => {
                push_str(f, ".. image:: ");
                push_str(f, badge_url.as_str());
                push_str(f, "\n  :alt: Nexus Downloads\n");
            },
            BadgeFormat::Url => {
                push_str(f, badge_url.as_str());
                push_str(f, "\n");
            },
        }
        assert(final(f)@ =~= old(f)@ + self.badge_body(badge_url@, opt_view(*light_mode_badge_url), link_url@));
    }

    /// Renders one fenced badge block.
    pub fn write_badge(&self, encoded_data: &EncodedFields, query: &str, link_url: &str) -> (r:
        String)
        ensures
            r@ == self.badge_block(*encoded_data, query@, link_url@),
    {
        let github_html_fmt = *self == BadgeFormat::GithubHtml;
        let link_empty = link_url.is_empty();
        let (badge_url, light_mode_badge_url) = if link_empty || github_html_fmt || *self
            == BadgeFormat::Markdown {
            encoded_data.dynamic_badge_url(github_html_fmt, query)
        } else {
            encoded_data.dynamic_badge_url_with_link(query, link_url)
        };
        let ghost url = badge_url@;
        let ghost light = opt_view(light_mode_badge_url);
        assert((url, light) == self.badge_urls(*encoded_data, query@, link_url@));
        let mut f = String::from_str("```");
        push_str(&mut f, self.name());
        push_str(&mut f, "\n");
        self.push_badge_body(&mut f, &badge_url, &light_mode_badge_url, link_url);
        push_str(&mut f, "```\n");
        assert(f@ =~= self.badge_block(*encoded_data, query@, link_url@));
        f
    }
}

} // verus!
