//! The badge document: one block per published entry.

use vstd::prelude::*;
use crate::badge_options::{BadgeFormat, BadgePreferences, EncodedFields};
use crate::json_data::ModDetails;
use crate::nexus::{Aggregate, key_of};
use crate::text::{dec_string, push_str};

verus! {

/// The query that selects the displayed counter of the entry under `key`.
pub open spec fn query_of(key: Seq<char>, field: Seq<char>) -> Seq<char> {
    "$."@ + key + "."@ + field
}

/// The section of one entry, given the query of its counter.
pub open spec fn section_for_query(
    format: BadgeFormat,
    fields: EncodedFields,
    query: Seq<char>,
    d: ModDetails,
) -> Seq<char> {
    "## "@ + d.name@ + "\n"@ + format.badge_block(fields, query, d.url@) + "\nConfiguration:\n- Query: "@
        + query + "\n"@ + (if d.url@.len() == 0 {
        Seq::empty()
    } else {
        "- Link: "@ + d.url@ + "\n"@
    }) + "\n"@
}

/// The section of the entry published under `key`.
pub open spec fn badge_section(
    prefs: BadgePreferences,
    fields: EncodedFields,
    key: Seq<char>,
    d: ModDetails,
) -> Seq<char> {
    section_for_query(prefs.format, fields, query_of(key, prefs.count.field_name_spec()), d)
}

pub open spec fn sections(prefs: BadgePreferences, fields: EncodedFields, es: Seq<ModDetails>) -> Seq<
    char,
>
    decreases es.len(),
{
    if es.len() == 0 {
        Seq::empty()
    } else {
        sections(prefs, fields, es.drop_last()) + badge_section(
            prefs,
            fields,
            key_of(es.last().uid),
            es.last(),
        )
    }
}

/// The header of a badge document.
pub open spec fn badges_header(prefs: BadgePreferences, universal_url: Seq<char>) -> Seq<char> {
    "# Shields.io Badges via Nexus Badges\nBase template: https://shields.io/badges/dynamic-json-badge\nData source URL: "@
        + universal_url + "\n"@ + prefs.describe_spec() + "\n"@
}

fn push_section(
    s: &mut String,
    prefs: &BadgePreferences,
    fields: &EncodedFields,
    key: &str,
    d: &ModDetails,
)
    ensures
        final(s)@ == old(s)@ + badge_section(*prefs, *fields, key@, *d),
{
    let mut query = String::from_str("$.");
    push_str(&mut query, key);
    push_str(&mut query, ".");
    push_str(&mut query, prefs.count.field_name());
    push_str(s, "## ");
    push_str(s, d.name.as_str());
    push_str(s, "\n");
    let block = prefs.format.write_badge(fields, query.as_str(), d.url.as_str());
    push_str(s, block.as_str());
    push_str(s, "\nConfiguration:\n- Query: ");
    push_str(s, query.as_str());
    push_str(s, "\n");
    if !d.url.as_str().is_empty() {
        push_str(s, "- Link: ");
        push_str(s, d.url.as_str());
        push_str(s, "\n");
    }
    push_str(s, "\n");
    assert(final(s)@ =~= old(s)@ + badge_section(*prefs, *fields, key@, *d));
}

/// The badge document for an aggregate whose published copy is reachable at
/// `universal_url`: a header with the data source and the preferences, then
/// one section per entry in published order, the totals entry last.
pub fn write_badges(output: &Aggregate, universal_url: &str, prefs: &BadgePreferences) -> (r: String)
    ensures
        exists|fields: EncodedFields|
            prefs.encodes(universal_url@, fields) && r@ == badges_document(
                *output,
                universal_url@,
                *prefs,
                fields,
            ),
{
    let fields = prefs.encoded_fields(universal_url);
    let mut s = String::from_str(
        "# Shields.io Badges via Nexus Badges\nBase template: https://shields.io/badges/dynamic-json-badge\nData source URL: ",
    );
    push_str(&mut s, universal_url);
    push_str(&mut s, "\n");
    let d = prefs.describe();
    push_str(&mut s, d.as_str());
    push_str(&mut s, "\n");
    let ghost head = s@;
    let n = output.entries.len();
    let mut i: usize = 0;
    while i < n
        invariant
            n == output.entries@.len(),
            i <= n,
            s@ == head + sections(*prefs, fields, output.entries@.take(i as int)),
        decreases n - i,
    {
        let key = dec_string(output.entries[i].uid);
        push_section(&mut s, prefs, &fields, key.as_str(), &output.entries[i]);
        proof {
            let t = output.entries@.take(i + 1);
            assert(t.drop_last() =~= output.entries@.take(i as int));
            assert(t.last() == output.entries@[i as int]);
        }
        i = i + 1;
    }
    assert(output.entries@.take(n as int) =~= output.entries@);
    push_section(&mut s, prefs, &fields, "Totals", &output.totals);
    s
}

/// The document that `write_badges` renders for these inputs.
pub open spec fn badges_document(
    output: Aggregate,
    universal_url: Seq<char>,
    prefs: BadgePreferences,
    fields: EncodedFields,
) -> Seq<char> {
    badges_header(prefs, universal_url) + sections(prefs, fields, output.entries@) + badge_section(
        prefs,
        fields,
        "Totals"@,
        output.totals,
    )
}

proof fn lemma_section_same_fields(
    prefs: BadgePreferences,
    url: Seq<char>,
    f1: EncodedFields,
    f2: EncodedFields,
    key: Seq<char>,
    d: ModDetails,
)
    requires
        prefs.encodes(url, f1),
        prefs.encodes(url, f2),
    ensures
        badge_section(prefs, f1, key, d) == badge_section(prefs, f2, key, d),
{
    let q = query_of(key, prefs.count.field_name_spec());
    assert(f1.dynamic_badge_url_spec(false, q) == f2.dynamic_badge_url_spec(false, q));
    assert(f1.dynamic_badge_url_spec(true, q) == f2.dynamic_badge_url_spec(true, q));
    assert(prefs.format.badge_urls(f1, q, d.url@) == prefs.format.badge_urls(f2, q, d.url@));
}

proof fn lemma_sections_same_fields(
    prefs: BadgePreferences,
    url: Seq<char>,
    f1: EncodedFields,
    f2: EncodedFields,
    es: Seq<ModDetails>,
)
    requires
        prefs.encodes(url, f1),
        prefs.encodes(url, f2),
    ensures
        sections(prefs, f1, es) == sections(prefs, f2, es),
    decreases es.len(),
{
    if es.len() > 0 {
        lemma_sections_same_fields(prefs, url, f1, f2, es.drop_last());
        lemma_section_same_fields(prefs, url, f1, f2, key_of(es.last().uid), es.last());
    }
}

/// Rendering is deterministic: the same aggregate, data source and
/// preferences always give the same document, byte for byte.
pub proof fn lemma_rendering_deterministic(
    output: Aggregate,
    universal_url: Seq<char>,
    prefs: BadgePreferences,
    f1: EncodedFields,
    f2: EncodedFields,
)
    requires
        prefs.encodes(universal_url, f1),
        prefs.encodes(universal_url, f2),
    ensures
        badges_document(output, universal_url, prefs, f1) == badges_document(
            output,
            universal_url,
            prefs,
            f2,
        ),
{
    lemma_sections_same_fields(prefs, universal_url, f1, f2, output.entries@);
    lemma_section_same_fields(prefs, universal_url, f1, f2, "Totals"@, output.totals);
}

/// Changing only the counter kind of the preferences leaves the encoded
/// label, style and colors as they are, and each badge section changes only
/// through its query, `$.<key>.` followed by the counter's field name.
pub proof fn lemma_count_changes_only_query(
    p: BadgePreferences,
    q: BadgePreferences,
    universal_url: Seq<char>,
    fields: EncodedFields,
    key: Seq<char>,
    d: ModDetails,
)
    requires
        p.style == q.style,
        p.format == q.format,
        p.label@ == q.label@,
        p.label_color.0 == q.label_color.0,
        p.label_color_light_mode.0 == q.label_color_light_mode.0,
        p.color.0 == q.color.0,
        p.encodes(universal_url, fields),
    ensures
        q.encodes(universal_url, fields),
        badge_section(p, fields, key, d) == section_for_query(
            p.format,
            fields,
            query_of(key, p.count.field_name_spec()),
            d,
        ),
        badge_section(q, fields, key, d) == section_for_query(
            p.format,
            fields,
            query_of(key, q.count.field_name_spec()),
            d,
        ),
        query_of(key, p.count.field_name_spec()).subrange(0, key.len() as int + 3) == query_of(
            key,
            q.count.field_name_spec(),
        ).subrange(0, key.len() as int + 3),
{
    reveal_strlit("$.");
    reveal_strlit(".");
    assert(query_of(key, p.count.field_name_spec()).subrange(0, key.len() as int + 3) =~= "$."@ + key
        + "."@);
    assert(query_of(key, q.count.field_name_spec()).subrange(0, key.len() as int + 3) =~= "$."@ + key
        + "."@);
}

} // verus!
