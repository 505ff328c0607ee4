//! Image references in finding descriptions, renamed to the files copied beside
//! the report.
use vstd::prelude::*;
use crate::inline::{link_at, lemma_link_end, try_parse_link};
use crate::text::{chars_of, match_at, matches_at, push_char, push_str, string_of_range};

verus! {

/// What follows the last `c` in `s` (all of `s` if there is none).
pub open spec fn after_last(s: Seq<char>, c: char) -> Seq<char>
    decreases s.len(),
{
    if s.len() == 0 {
        seq![]
    } else if s.last() == c {
        seq![]
    } else {
        after_last(s.drop_last(), c).push(s.last())
    }
}

/// The file name of a path written with `/` or `\` separators.
pub open spec fn base_name(p: Seq<char>) -> Seq<char> {
    after_last(after_last(p, '/'), '\\')
}

fn after_last_of(s: &[char], c: char) -> (r: Vec<char>)
    ensures
        r@ == after_last(s@, c),
{
    let mut i = s.len();
    while i > 0 && s[i - 1] != c
        invariant
            i <= s@.len(),
            forall|j: int| i <= j < s@.len() ==> s@[j] != c,
        decreases i,
    {
        i = i - 1;
    }
    let r = crate::text::vec_of_range(s, i, s.len());
    proof {
        lemma_after_last(s@, c, i as int);
    }
    r
}

proof fn lemma_after_last(s: Seq<char>, c: char, i: int)
    requires
        0 <= i <= s.len(),
        i == 0 || s[i - 1] == c,
        forall|j: int| i <= j < s.len() ==> s[j] != c,
    ensures
        after_last(s, c) == s.subrange(i, s.len() as int),
    decreases s.len(),
{
    if s.len() == 0 {
        assert(s.subrange(i, 0) =~= Seq::<char>::empty());
    } else if i == s.len() {
        assert(s.subrange(i, s.len() as int) =~= Seq::<char>::empty());
    } else {
        lemma_after_last(s.drop_last(), c, i);
        assert(s.drop_last().subrange(i, s.len() - 1).push(s.last()) =~= s.subrange(i, s.len() as int));
    }
}

/// `![alt](path)` at the start of `s`: alt text, path and characters consumed.
pub open spec fn md_image_at(s: Seq<char>) -> Option<(Seq<char>, Seq<char>, int)> {
    if match_at(s, 0, seq!['!', '[']) { link_at(s, 1) } else { None }
}

/// Try to parse `![alt](path)` from the start of `s`; returns the alt text, the
/// path and the number of characters consumed.
pub fn parse_md_image(s: &str) -> (r: Option<(String, String, usize)>)
    ensures
        md_image_at(s@) == match r {
            Some((a, p, n)) => Some((a@, p@, n as int)),
            None => None,
        },
{
    let cs = chars_of(s);
    let prefix = ['!', '['];
    assert(prefix@ == seq!['!', '[']);
    if !matches_at(cs.as_slice(), 0, prefix.as_slice()) {
        return None;
    }
    try_parse_link(cs.as_slice(), 1)
}

/// Whether some image's file name (after its last `/`) is `b`.
pub open spec fn known_image(images: Seq<String>, b: Seq<char>) -> bool {
    exists|i: int| 0 <= i < images.len() && after_last(#[trigger] images[i]@, '/') == b
}

/// The url part of the link at `start`, if there is one.
pub open spec fn link_path(s: Seq<char>, start: int) -> Seq<char> {
    match link_at(s, start) {
        Some((_, p, _)) => p,
        None => seq![],
    }
}

/// The description from index `i` on, with each image reference whose file is
/// among `images` renamed to `<slug>-<file name>`.
pub open spec fn rewritten_from(s: Seq<char>, i: int, images: Seq<String>, slug: Seq<char>) -> Seq<char>
    decreases s.len() - i,
{
    if i < 0 || i >= s.len() {
        seq![]
    } else if match_at(s, i, seq!['!', '[']) && link_at(s, i + 1) is Some && known_image(
        images,
        base_name(link_path(s, i + 1)),
    ) {
        let (alt, path, e) = link_at(s, i + 1)->0;
        proof {
            lemma_link_end(s, i + 1);
        }
        seq!['!', '['] + alt + seq![']', '('] + slug + seq!['-'] + base_name(path) + seq![')']
            + rewritten_from(s, e, images, slug)
    } else if match_at(s, i, seq!['!', '[']) {
        seq!['!', '['] + rewritten_from(s, i + 2, images, slug)
    } else {
        seq![s[i]] + rewritten_from(s, i + 1, images, slug)
    }
}

fn is_known_image(images: &[String], b: &Vec<char>) -> (r: bool)
    ensures
        r == known_image(images@, b@),
{
    let mut k: usize = 0;
    while k < images.len()
        invariant
            k <= images@.len(),
            forall|j: int| 0 <= j < k ==> after_last(#[trigger] images@[j]@, '/') != b@,
        decreases images.len() - k,
    {
        let ic = chars_of(images[k].as_str());
        let base = after_last_of(ic.as_slice(), '/');
        if crate::text::eq_str(base.as_slice(), string_of_range(b.as_slice(), 0, b.len()).as_str()) {
            assert(b@.subrange(0, b@.len() as int) =~= b@);
            return true;
        }
        assert(b@.subrange(0, b@.len() as int) =~= b@);
        k = k + 1;
    }
    false
}

/// Rewrite image references in a finding description so that those naming one
/// of `images` point at `<slug>-<file name>`, the name under which the image is
/// copied beside the report; other text is kept as it is.
pub fn rewrite_description_images(desc: &str, images: &[String], slug: &str) -> (r: String)
    ensures
        r@ == rewritten_from(desc@, 0, images@, slug@),
{
    let cs = chars_of(desc);
    let s = cs.as_slice();
    let prefix = ['!', '['];
    assert(prefix@ == seq!['!', '[']);
    let mut out = String::new();
    let mut i: usize = 0;
    while i < s.len()
        invariant
            i <= s@.len(),
            s@ == desc@,
            prefix@ == seq!['!', '['],
            rewritten_from(s@, 0, images@, slug@) == out@ + rewritten_from(s@, i as int, images@, slug@),
        decreases s.len() - i,
    {
        let ghost before = out@;
        if matches_at(s, i, prefix.as_slice()) {
            proof {
                lemma_link_end(s@, i + 1);
            }
            match try_parse_link(s, i + 1) {
                Some((alt, path, end)) => {
                    let pc = chars_of(path.as_str());
                    let b1 = after_last_of(pc.as_slice(), '/');
                    let base = after_last_of(b1.as_slice(), '\\');
                    if is_known_image(images, &base) {
                        push_str(&mut out, "![");
                        push_str(&mut out, alt.as_str());
                        push_str(&mut out, "](");
                        push_str(&mut out, slug);
                        push_char(&mut out, '-');
                        let bs = string_of_range(base.as_slice(), 0, base.len());
                        assert(base@.subrange(0, base@.len() as int) =~= base@);
                        push_str(&mut out, bs.as_str());
                        push_char(&mut out, ')');
                        proof {
                            reveal_strlit("![");
                            reveal_strlit("](");
                        }
                        assert(out@ =~= before + (seq!['!', '['] + alt@ + seq![']', '('] + slug@ + seq!['-']
                            + base@ + seq![')']));
                        i = end;
                        continue;
                    }
                },
                None => {},
            }
            push_str(&mut out, "![");
            proof {
                reveal_strlit("![");
            }
            i = i + 2;
        } else {
            push_char(&mut out, s[i]);
            i = i + 1;
        }
    }
    out
}

} // verus!
