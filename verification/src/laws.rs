//! Laws of the library, each stated and proved over the same
//! specification functions the executable contracts use.

use vstd::prelude::*;
use crate::scan::match_at;
use crate::scan::replace_all;
use crate::text::br_match;
use crate::text::collapse_breaks_from;
use crate::text::decode_entities_from;
use crate::text::decode_refs_from;
use crate::text::entity_at_k;
use crate::text::entity_table;
use crate::text::gt_scan;
use crate::text::normalize_spec;
use crate::text::ref_match_at;
use crate::text::strip_tags_from;
use crate::text::tag_match;
use crate::text::trim_start_spec;
use crate::url::artist_placeholder;
use crate::url::close_scan;
use crate::url::create_url_spec;
use crate::url::feature_match;
use crate::url::is_sep_char;
use crate::url::kw_feat;
use crate::url::kw_with;
use crate::url::paren_match;
use crate::url::strip_feature;
use crate::url::strip_feature_from;
use crate::url::subst_apostrophe_from;
use crate::url::subst_separators_from;
use crate::url::title_placeholder;
use crate::url::transform_name;

verus! {

// ---------------------------------------------------------------------
// The normalizer on fragments of break tags and plain text.
// ---------------------------------------------------------------------

/// One building block of a plain fragment: a literal character, or a
/// `<br>`/`<p>` tag.
pub enum Piece {
    /// A literal character.
    Ch(char),
    /// A break tag: `<p…>` when `name_p`, else `<br…>`; `closing` puts a
    /// `/` after the `<`; `attrs` is the text between name and `>`.
    Tag { name_p: bool, closing: bool, attrs: Seq<char> },
}

/// What keeps a piece plain: a literal character is no tag opener and no
/// entity opener; a tag's attribute text holds nothing that would end or
/// break the tag, and no entity opener either.
pub open spec fn piece_wf(p: Piece) -> bool {
    match p {
        Piece::Ch(c) => c != '<' && c != '&',
        Piece::Tag { name_p, closing, attrs } => forall|k: int|
            0 <= k < attrs.len() ==> (#[trigger] attrs[k]) != '>' && attrs[k] != '\n' && attrs[k]
                != '&',
    }
}

/// The raw text of one piece.
pub open spec fn render_piece(p: Piece) -> Seq<char> {
    match p {
        Piece::Ch(c) => seq![c],
        Piece::Tag { name_p, closing, attrs } => seq!['<'] + (if closing {
            seq!['/']
        } else {
            Seq::empty()
        }) + (if name_p {
            seq!['p']
        } else {
            seq!['b', 'r']
        }) + attrs + seq!['>'],
    }
}

/// The raw text of a fragment.
pub open spec fn render(ps: Seq<Piece>) -> Seq<char>
    decreases ps.len(),
{
    if ps.len() == 0 {
        Seq::empty()
    } else {
        render_piece(ps[0]) + render(ps.drop_first())
    }
}

/// The plain text a fragment stands for: each tag is one newline.
pub open spec fn flat_piece(p: Piece) -> Seq<char> {
    match p {
        Piece::Ch(c) => seq![c],
        Piece::Tag { .. } => seq!['\n'],
    }
}

pub open spec fn flat(ps: Seq<Piece>) -> Seq<char>
    decreases ps.len(),
{
    if ps.len() == 0 {
        Seq::empty()
    } else {
        flat_piece(ps[0]) + flat(ps.drop_first())
    }
}

proof fn lemma_gt_scan_exact(s: Seq<char>, q: int, e: int)
    requires
        0 <= q <= e < s.len(),
        s[e] == '>',
        forall|k: int| q <= k < e ==> (#[trigger] s[k]) != '>' && s[k] != '\n',
    ensures
        gt_scan(s, q) == Some(e + 1),
    decreases e - q,
{
    if q < e {
        lemma_gt_scan_exact(s, q + 1, e);
    }
}

proof fn lemma_decode_refs_id(s: Seq<char>, i: int)
    requires
        0 <= i <= s.len(),
        forall|k: int| i <= k < s.len() ==> (#[trigger] s[k]) != '&',
    ensures
        decode_refs_from(s, i) == Some(s.subrange(i, s.len() as int)),
    decreases s.len() - i,
{
    if i < s.len() {
        assert(!ref_match_at(s, i));
        lemma_decode_refs_id(s, i + 1);
        assert(seq![s[i]] + s.subrange(i + 1, s.len() as int) =~= s.subrange(i, s.len() as int));
    } else {
        assert(s.subrange(i, s.len() as int) =~= Seq::<char>::empty());
    }
}

proof fn lemma_strip_tags_id(s: Seq<char>, i: int)
    requires
        0 <= i <= s.len(),
        forall|k: int| i <= k < s.len() ==> (#[trigger] s[k]) != '<',
    ensures
        strip_tags_from(s, i) == s.subrange(i, s.len() as int),
    decreases s.len() - i,
{
    if i < s.len() {
        assert(tag_match(s, i) is None);
        lemma_strip_tags_id(s, i + 1);
        assert(seq![s[i]] + s.subrange(i + 1, s.len() as int) =~= s.subrange(i, s.len() as int));
    } else {
        assert(s.subrange(i, s.len() as int) =~= Seq::<char>::empty());
    }
}

proof fn lemma_entity_at_k_amp(s: Seq<char>, i: int, k: int)
    requires
        0 <= i < s.len(),
        s[i] != '&',
    ensures
        entity_at_k(s, i, k) is None,
    decreases entity_table().len() - k,
{
    if 0 <= k < entity_table().len() {
        if match_at(s, entity_table()[k].0, i) {
            assert(entity_table()[k].0[0] == '&');
            assert(s.subrange(i, i + entity_table()[k].0.len())[0] == s[i]);
        }
        lemma_entity_at_k_amp(s, i, k + 1);
    }
}

proof fn lemma_decode_entities_id(s: Seq<char>, i: int)
    requires
        0 <= i <= s.len(),
        forall|k: int| i <= k < s.len() ==> (#[trigger] s[k]) != '&',
    ensures
        decode_entities_from(s, i) == s.subrange(i, s.len() as int),
    decreases s.len() - i,
{
    if i < s.len() {
        lemma_entity_at_k_amp(s, i, 0);
        lemma_decode_entities_id(s, i + 1);
        assert(seq![s[i]] + s.subrange(i + 1, s.len() as int) =~= s.subrange(i, s.len() as int));
    } else {
        assert(s.subrange(i, s.len() as int) =~= Seq::<char>::empty());
    }
}

proof fn lemma_render_no_amp(ps: Seq<Piece>)
    requires
        forall|k: int| 0 <= k < ps.len() ==> piece_wf(#[trigger] ps[k]),
    ensures
        forall|k: int| 0 <= k < render(ps).len() ==> (#[trigger] render(ps)[k]) != '&',
    decreases ps.len(),
{
    if ps.len() > 0 {
        assert forall|k: int| 0 <= k < ps.drop_first().len() implies piece_wf(
            #[trigger] ps.drop_first()[k],
        ) by {
            assert(ps.drop_first()[k] == ps[k + 1]);
        }
        lemma_render_no_amp(ps.drop_first());
        assert(piece_wf(ps[0]));
        assert forall|k: int| 0 <= k < render_piece(ps[0]).len() implies (
        #[trigger] render_piece(ps[0])[k]) != '&' by {}
        assert forall|k: int| 0 <= k < render(ps).len() implies (#[trigger] render(ps)[k])
            != '&' by {
            if k < render_piece(ps[0]).len() {
                assert(render(ps)[k] == render_piece(ps[0])[k]);
            } else {
                assert(render(ps)[k] == render(ps.drop_first())[k - render_piece(ps[0]).len()]);
            }
        }
    }
}

proof fn lemma_flat_alphabet(ps: Seq<Piece>)
    requires
        forall|k: int| 0 <= k < ps.len() ==> piece_wf(#[trigger] ps[k]),
    ensures
        forall|k: int|
            0 <= k < flat(ps).len() ==> (#[trigger] flat(ps)[k]) != '&' && flat(ps)[k] != '<',
    decreases ps.len(),
{
    if ps.len() > 0 {
        assert forall|k: int| 0 <= k < ps.drop_first().len() implies piece_wf(
            #[trigger] ps.drop_first()[k],
        ) by {
            assert(ps.drop_first()[k] == ps[k + 1]);
        }
        lemma_flat_alphabet(ps.drop_first());
        assert(piece_wf(ps[0]));
        assert forall|k: int| 0 <= k < flat(ps).len() implies (#[trigger] flat(ps)[k]) != '&'
            && flat(ps)[k] != '<' by {
            if k < 1 {
                assert(flat(ps)[k] == flat_piece(ps[0])[k]);
            } else {
                assert(flat(ps)[k] == flat(ps.drop_first())[k - 1]);
            }
        }
    }
}

proof fn lemma_collapse_render(s: Seq<char>, ps: Seq<Piece>, i: int)
    requires
        0 <= i <= s.len(),
        s.subrange(i, s.len() as int) == render(ps),
        forall|k: int| 0 <= k < ps.len() ==> piece_wf(#[trigger] ps[k]),
    ensures
        collapse_breaks_from(s, i) == flat(ps),
    decreases ps.len(),
{
    if ps.len() == 0 {
        assert(s.subrange(i, s.len() as int).len() == 0);
    } else {
        let p = ps[0];
        let rest = ps.drop_first();
        let rp = render_piece(p);
        let bl = rp.len() as int;
        assert forall|k: int| 0 <= k < rest.len() implies piece_wf(#[trigger] rest[k]) by {
            assert(rest[k] == ps[k + 1]);
        }
        assert(piece_wf(p));
        assert(render(ps) == rp + render(rest));
        assert(s.len() - i == bl + render(rest).len());
        assert(i + bl <= s.len());
        // The suffix after this piece renders the remaining pieces.
        assert forall|k: int| 0 <= k < bl implies s[i + k] == rp[k] by {
            assert(s.subrange(i, s.len() as int)[k] == s[i + k]);
            assert(render(ps)[k] == rp[k]);
        }
        assert(i + bl <= s.len());
        assert(s.subrange(i + bl, s.len() as int) =~= render(rest)) by {
            assert forall|k: int| 0 <= k < s.len() - i - bl implies s.subrange(
                i + bl,
                s.len() as int,
            )[k] == render(rest)[k] by {
                assert(s.subrange(i, s.len() as int)[bl + k] == s[i + bl + k]);
                assert(render(ps)[bl + k] == render(rest)[k]);
            }
        }
        match p {
            Piece::Ch(c) => {
                assert(s[i + 0] == rp[0]);
                assert(rp[0] == c);
                assert(br_match(s, i) is None);
                lemma_collapse_render(s, rest, i + 1);
            },
            Piece::Tag { name_p, closing, attrs } => {
                let pre = 1 + (if closing {
                    1int
                } else {
                    0int
                }) + (if name_p {
                    1int
                } else {
                    2int
                });
                // The rendered tag, position by position.
                assert(s[i + 0] == rp[0]);
                assert(rp[0] == '<');
                assert(s[i + (bl - 1)] == rp[bl - 1]);
                assert(rp[bl - 1] == '>');
                if closing {
                    assert(s[i + 1] == rp[1]);
                    assert(rp[1] == '/');
                    assert(s[i + 2] == rp[2]);
                    if name_p {
                        assert(rp[2] == 'p');
                    } else {
                        assert(rp[2] == 'b');
                        assert(s[i + 3] == rp[3]);
                        assert(rp[3] == 'r');
                    }
                } else {
                    assert(s[i + 1] == rp[1]);
                    if name_p {
                        assert(rp[1] == 'p');
                    } else {
                        assert(rp[1] == 'b');
                        assert(s[i + 2] == rp[2]);
                        assert(rp[2] == 'r');
                    }
                }
                let j = if i + 1 < s.len() && s[i + 1] == '/' {
                    i + 2
                } else {
                    i + 1
                };
                let q = if name_p {
                    j + 1
                } else {
                    j + 2
                };
                assert(q == i + pre);
                assert forall|k: int| q <= k < i + bl - 1 implies (#[trigger] s[k]) != '>' && s[k]
                    != '\n' by {
                    assert(s[i + (k - i)] == rp[k - i]);
                    assert(rp[k - i] == attrs[k - i - pre]);
                }
                lemma_gt_scan_exact(s, q, i + bl - 1);
                assert(br_match(s, i) == Some(i + bl));
                lemma_collapse_render(s, rest, i + bl);
            },
        }
    }
}

/// For a fragment of `<br>`/`<p>` tags and plain text only, the
/// normalizer succeeds and yields the plain text with every tag replaced
/// by a newline and leading whitespace trimmed.
pub proof fn lemma_normalize_break_fragments(ps: Seq<Piece>)
    requires
        forall|k: int| 0 <= k < ps.len() ==> piece_wf(#[trigger] ps[k]),
    ensures
        normalize_spec(render(ps)) == Some(trim_start_spec(flat(ps))),
{
    let s = render(ps);
    lemma_render_no_amp(ps);
    lemma_decode_refs_id(s, 0);
    assert(s.subrange(0, s.len() as int) =~= s);
    lemma_collapse_render(s, ps, 0);
    let f = flat(ps);
    lemma_flat_alphabet(ps);
    lemma_strip_tags_id(f, 0);
    lemma_decode_entities_id(f, 0);
    assert(f.subrange(0, f.len() as int) =~= f);
}

// ---------------------------------------------------------------------
// The URL builder on plain names, and under feature annotations.
// ---------------------------------------------------------------------

/// A character the URL transformations leave alone.
pub open spec fn plain_name_char(c: char) -> bool {
    c != '\'' && !is_sep_char(c)
}

proof fn lemma_strip_feature_id(s: Seq<char>, i: int)
    requires
        0 <= i <= s.len(),
        forall|k: int| i <= k < s.len() ==> (#[trigger] s[k]) != '(',
    ensures
        strip_feature_from(s, i) == s.subrange(i, s.len() as int),
    decreases s.len() - i,
{
    if i < s.len() {
        assert(feature_match(s, i) is None);
        lemma_strip_feature_id(s, i + 1);
        assert(seq![s[i]] + s.subrange(i + 1, s.len() as int) =~= s.subrange(i, s.len() as int));
    } else {
        assert(s.subrange(i, s.len() as int) =~= Seq::<char>::empty());
    }
}

proof fn lemma_subst_apostrophe_id(s: Seq<char>, rep: Seq<char>, i: int)
    requires
        0 <= i <= s.len(),
        forall|k: int| i <= k < s.len() ==> (#[trigger] s[k]) != '\'',
    ensures
        subst_apostrophe_from(s, rep, i) == s.subrange(i, s.len() as int),
    decreases s.len() - i,
{
    if i < s.len() {
        lemma_subst_apostrophe_id(s, rep, i + 1);
        assert(seq![s[i]] + s.subrange(i + 1, s.len() as int) =~= s.subrange(i, s.len() as int));
    } else {
        assert(s.subrange(i, s.len() as int) =~= Seq::<char>::empty());
    }
}

proof fn lemma_subst_separators_id(s: Seq<char>, rep: Seq<char>, i: int)
    requires
        0 <= i <= s.len(),
        forall|k: int| i <= k < s.len() ==> !is_sep_char(#[trigger] s[k]),
    ensures
        subst_separators_from(s, rep, i) == s.subrange(i, s.len() as int),
    decreases s.len() - i,
{
    if i < s.len() {
        lemma_subst_separators_id(s, rep, i + 1);
        assert(seq![s[i]] + s.subrange(i + 1, s.len() as int) =~= s.subrange(i, s.len() as int));
    } else {
        assert(s.subrange(i, s.len() as int) =~= Seq::<char>::empty());
    }
}

proof fn lemma_transform_name_id(s: Seq<char>, sep: Seq<char>, apostrophe_sep: bool)
    requires
        forall|k: int| 0 <= k < s.len() ==> plain_name_char(#[trigger] s[k]),
    ensures
        transform_name(s, sep, apostrophe_sep) == s,
{
    let rep = if apostrophe_sep {
        sep
    } else {
        Seq::<char>::empty()
    };
    lemma_subst_apostrophe_id(s, rep, 0);
    assert(s.subrange(0, s.len() as int) =~= s);
    lemma_subst_separators_id(s, sep, 0);
}

/// On names without apostrophes, separators-to-be or an opening
/// parenthesis, building a URL is plain placeholder substitution: the
/// names pass through unchanged.
pub proof fn lemma_url_plain(
    template: Seq<char>,
    sep: Seq<char>,
    apostrophe_sep: bool,
    title: Seq<char>,
    artist: Seq<char>,
)
    requires
        forall|k: int|
            0 <= k < title.len() ==> plain_name_char(#[trigger] title[k]) && title[k] != '(',
        forall|k: int| 0 <= k < artist.len() ==> plain_name_char(#[trigger] artist[k]),
    ensures
        create_url_spec(template, sep, apostrophe_sep, title, artist) == replace_all(
            replace_all(template, artist_placeholder(), artist),
            title_placeholder(),
            title,
        ),
{
    lemma_strip_feature_id(title, 0);
    assert(title.subrange(0, title.len() as int) =~= title);
    lemma_transform_name_id(title, sep, apostrophe_sep);
    lemma_transform_name_id(artist, sep, apostrophe_sep);
}

/// The text a feature annotation adds to a title: one space, `(`, the
/// keyword, free text, `)`.
pub open spec fn feature_annotation(kw_is_with: bool, inner: Seq<char>) -> Seq<char> {
    seq![' ', '('] + (if kw_is_with {
        kw_with()
    } else {
        kw_feat()
    }) + inner + seq![')']
}

proof fn lemma_close_scan_exact(s: Seq<char>, q: int, e: int)
    requires
        0 <= q <= e < s.len(),
        s[e] == ')',
        forall|k: int| q <= k < e ==> (#[trigger] s[k]) != ')' && s[k] != '\n',
    ensures
        close_scan(s, q) == Some(e + 1),
    decreases e - q,
{
    if q < e {
        lemma_close_scan_exact(s, q + 1, e);
    }
}

proof fn lemma_strip_feature_prefix(s: Seq<char>, i: int, b: int)
    requires
        0 <= i <= b < s.len(),
        forall|k: int| i <= k <= b ==> (#[trigger] s[k]) != '(',
        feature_match(s, b) == Some(s.len() as int),
    ensures
        strip_feature_from(s, i) == s.subrange(i, b as int),
    decreases b - i,
{
    if i < b {
        assert(feature_match(s, i) is None);
        lemma_strip_feature_prefix(s, i + 1, b);
        assert(seq![s[i]] + s.subrange(i + 1, b as int) =~= s.subrange(i, b as int));
    } else {
        assert(s.subrange(s.len() as int, s.len() as int) =~= Seq::<char>::empty());
        assert(s.subrange(b as int, b as int) =~= Seq::<char>::empty());
    }
}

/// Stripping the feature annotation: a title of the shape
/// `base (with…)`/`base (feat…)` builds the same URL as `base` alone.
pub proof fn lemma_url_feature_stripped(
    template: Seq<char>,
    sep: Seq<char>,
    apostrophe_sep: bool,
    base: Seq<char>,
    kw_is_with: bool,
    inner: Seq<char>,
    artist: Seq<char>,
)
    requires
        forall|k: int| 0 <= k < base.len() ==> (#[trigger] base[k]) != '(',
        forall|k: int| 0 <= k < inner.len() ==> (#[trigger] inner[k]) != ')' && inner[k] != '\n',
    ensures
        create_url_spec(
            template,
            sep,
            apostrophe_sep,
            base + feature_annotation(kw_is_with, inner),
            artist,
        ) == create_url_spec(template, sep, apostrophe_sep, base, artist),
{
    let title = base + feature_annotation(kw_is_with, inner);
    let b = base.len() as int;
    let n = title.len() as int;
    assert(n == b + 7 + inner.len());
    assert(title[b] == ' ');
    assert(title[b + 1] == '(');
    let kw = if kw_is_with {
        kw_with()
    } else {
        kw_feat()
    };
    assert(title.subrange(b + 2, b + 6) =~= kw);
    assert(match_at(title, kw, b + 2));
    assert forall|k: int| b + 6 <= k < n - 1 implies (#[trigger] title[k]) != ')' && title[k]
        != '\n' by {
        assert(title[k] == inner[k - b - 6]);
    }
    assert(title[n - 1] == ')');
    lemma_close_scan_exact(title, b + 6, n - 1);
    assert(paren_match(title, b + 1) == Some(n));
    assert(feature_match(title, b) == Some(n));
    assert forall|k: int| 0 <= k <= b implies (#[trigger] title[k]) != '(' by {
        if k < b {
            assert(title[k] == base[k]);
        }
    }
    lemma_strip_feature_prefix(title, 0, b);
    assert(title.subrange(0, b) =~= base);
    lemma_strip_feature_id(base, 0);
    assert(base.subrange(0, b) =~= base);
    assert(strip_feature(title) == strip_feature(base));
}

} // verus!
