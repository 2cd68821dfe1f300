use crate::search::find_at;
use crate::search::find_from;
use crate::search::find_within;
use crate::search::lemma_find_at;
use crate::text::chars_of;
use crate::text::slice_text;
use crate::text::texts;
use vstd::prelude::*;

verus! {

/// What opens a sound directive.
pub open spec fn sound_open() -> Seq<char> {
    seq!['[', 's', 'o', 'u', 'n', 'd', ':']
}

/// What closes a sound directive.
pub open spec fn sound_close() -> Seq<char> {
    seq![']']
}

/// What opens an image tag.
pub open spec fn image_open() -> Seq<char> {
    seq!['<', 'i', 'm', 'g']
}

/// What closes a tag.
pub open spec fn tag_close() -> Seq<char> {
    seq!['>']
}

/// What introduces the source attribute of an image tag.
pub open spec fn source_attr() -> Seq<char> {
    seq!['s', 'r', 'c', '=']
}

/// Whether `c` is a quotation mark, double or single.
pub open spec fn is_quote(c: char) -> bool {
    c == '"' || c == '\''
}

/// The file names of the sound directives in `text` at or after `from`,
/// in order: each is what stands between `[sound:` and the next `]`. A
/// directive that is never closed names nothing.
pub open spec fn sound_refs(text: Seq<char>, from: int) -> Seq<Seq<char>>
    decreases text.len() - from,
    via sound_refs_progress
{
    match find_at(text, sound_open(), from) {
        Some(p) => match find_at(text, sound_close(), p + 7) {
            Some(q) => seq![text.subrange(p + 7, q)] + sound_refs(text, q + 1),
            None => Seq::<Seq<char>>::empty(),
        },
        None => Seq::<Seq<char>>::empty(),
    }
}

/// Every directive found lies behind the start of the search and inside the text.
#[via_fn]
proof fn sound_refs_progress(text: Seq<char>, from: int) {
    lemma_find_at(text, sound_open(), from);
    match find_at(text, sound_open(), from) {
        Some(p) => lemma_find_at(text, sound_close(), p + 7),
        None => {},
    }
}

/// The first index at or after `from` and before `limit` that holds a
/// quotation mark; `limit` where there is none.
pub open spec fn name_end(text: Seq<char>, from: int, limit: int) -> int
    decreases limit - from,
{
    if from >= limit || is_quote(text[from]) {
        from
    } else {
        name_end(text, from + 1, limit)
    }
}

/// The file name in the image tag that opens at `open_at` and closes at
/// `close_at`: what follows the first `src=` in the tag, after one
/// optional quotation mark, up to the next quotation mark or the end of
/// the tag. A tag without `src=`, or with nothing behind it, names nothing.
pub open spec fn image_name(text: Seq<char>, open_at: int, close_at: int) -> Option<Seq<char>> {
    match find_at(text.take(close_at), source_attr(), open_at + 4) {
        Some(s) => {
            let start = if s + 4 < close_at && is_quote(text[s + 4]) {
                s + 5
            } else {
                s + 4
            };
            let end = name_end(text, start, close_at);
            if start < end {
                Some(text.subrange(start, end))
            } else {
                None
            }
        },
        None => None,
    }
}

/// The file names of the image tags in `text` at or after `from`, in
/// order. A tag runs from `<img` to the next `>`; a tag that is never
/// closed names nothing.
pub open spec fn image_refs(text: Seq<char>, from: int) -> Seq<Seq<char>>
    decreases text.len() - from,
    via image_refs_progress
{
    match find_at(text, image_open(), from) {
        Some(p) => match find_at(text, tag_close(), p + 4) {
            Some(e) => (match image_name(text, p, e) {
                Some(name) => seq![name],
                None => Seq::<Seq<char>>::empty(),
            }) + image_refs(text, e + 1),
            None => Seq::<Seq<char>>::empty(),
        },
        None => Seq::<Seq<char>>::empty(),
    }
}

/// Every tag found lies behind the start of the search and inside the text.
#[via_fn]
proof fn image_refs_progress(text: Seq<char>, from: int) {
    lemma_find_at(text, image_open(), from);
    match find_at(text, image_open(), from) {
        Some(p) => lemma_find_at(text, tag_close(), p + 4),
        None => {},
    }
}

/// The media file names that `text` refers to: those of its image tags,
/// then those of its sound directives.
pub open spec fn media_refs(text: Seq<char>) -> Seq<Seq<char>> {
    image_refs(text, 0) + sound_refs(text, 0)
}

/// Appends the file names of the sound directives of `text` to `out`.
fn collect_sound_refs(text: &str, cs: &Vec<char>, out: &mut Vec<String>)
    requires
        cs@ == text@,
    ensures
        texts(final(out)@) == texts(old(out)@) + sound_refs(text@, 0),
{
    let open = chars_of("[sound:");
    let close = chars_of("]");
    proof {
        reveal_strlit("[sound:");
        reveal_strlit("]");
        assert(open@ =~= sound_open());
        assert(close@ =~= sound_close());
    }
    let ghost start = texts(out@);
    let mut from: usize = 0;
    assert(texts(out@) + sound_refs(text@, 0) == start + sound_refs(text@, 0));
    loop
        invariant
            cs@ == text@,
            open@ == sound_open(),
            close@ == sound_close(),
            from <= cs.len(),
            texts(out@) + sound_refs(text@, from as int) == start + sound_refs(text@, 0),
            start == texts(old(out)@),
        ensures
            texts(out@) == start + sound_refs(text@, 0),
        decreases cs.len() - from,
    {
        let p = match find_from(cs, &open, from) {
            Some(p) => p,
            None => {
                assert(texts(out@) + Seq::<Seq<char>>::empty() == texts(out@));
                break ;
            },
        };
        let q = match find_from(cs, &close, p + 7) {
            Some(q) => q,
            None => {
                assert(texts(out@) + Seq::<Seq<char>>::empty() == texts(out@));
                break ;
            },
        };
        let ghost before = texts(out@);
        let name = slice_text(text, p + 7, q);
        out.push(name);
        proof {
            let piece = text@.subrange(p + 7, q as int);
            assert(texts(out@) =~= before.push(piece));
            assert(before.push(piece) + sound_refs(text@, q + 1) =~= before + (seq![piece]
                + sound_refs(text@, q + 1)));
        }
        from = q + 1;
    }
}

/// Whether `c` is a quotation mark.
pub fn is_quote_char(c: char) -> (r: bool)
    ensures
        r == is_quote(c),
{
    c == '"' || c == '\''
}

/// The file name in the image tag of `cs` that opens at `open_at` and closes at `close_at`.
fn image_name_in(text: &str, cs: &Vec<char>, open_at: usize, close_at: usize) -> (r: Option<
    String,
>)
    requires
        cs@ == text@,
        open_at + 4 <= close_at <= cs.len(),
    ensures
        match r {
            Some(name) => image_name(text@, open_at as int, close_at as int) == Some(name@),
            None => image_name(text@, open_at as int, close_at as int) is None,
        },
{
    let attr = chars_of("src=");
    proof {
        reveal_strlit("src=");
        assert(attr@ =~= source_attr());
    }
    let s = match find_within(cs, &attr, open_at + 4, close_at) {
        Some(s) => s,
        None => {
            return None;
        },
    };
    let start: usize = if s + 4 < close_at && is_quote_char(cs[s + 4]) {
        s + 5
    } else {
        s + 4
    };
    let mut end: usize = start;
    while end < close_at && !is_quote_char(cs[end])
        invariant
            start <= end <= close_at <= cs.len(),
            name_end(cs@, start as int, close_at as int) == name_end(
                cs@,
                end as int,
                close_at as int,
            ),
        decreases close_at - end,
    {
        end += 1;
    }
    if start < end {
        Some(slice_text(text, start, end))
    } else {
        None
    }
}

/// Appends the file names of the image tags of `text` to `out`.
fn collect_image_refs(text: &str, cs: &Vec<char>, out: &mut Vec<String>)
    requires
        cs@ == text@,
    ensures
        texts(final(out)@) == texts(old(out)@) + image_refs(text@, 0),
{
    let open = chars_of("<img");
    let close = chars_of(">");
    proof {
        reveal_strlit("<img");
        reveal_strlit(">");
        assert(open@ =~= image_open());
        assert(close@ =~= tag_close());
    }
    let ghost start = texts(out@);
    let mut from: usize = 0;
    assert(texts(out@) + image_refs(text@, 0) == start + image_refs(text@, 0));
    loop
        invariant
            cs@ == text@,
            open@ == image_open(),
            close@ == tag_close(),
            from <= cs.len(),
            texts(out@) + image_refs(text@, from as int) == start + image_refs(text@, 0),
            start == texts(old(out)@),
        ensures
            texts(out@) == start + image_refs(text@, 0),
        decreases cs.len() - from,
    {
        let p = match find_from(cs, &open, from) {
            Some(p) => p,
            None => {
                assert(texts(out@) + Seq::<Seq<char>>::empty() == texts(out@));
                break ;
            },
        };
        let e = match find_from(cs, &close, p + 4) {
            Some(e) => e,
            None => {
                assert(texts(out@) + Seq::<Seq<char>>::empty() == texts(out@));
                break ;
            },
        };
        let ghost before = texts(out@);
        let ghost rest = image_refs(text@, e + 1);
        match image_name_in(text, cs, p, e) {
            Some(name) => {
                let ghost piece = name@;
                out.push(name);
                proof {
                    assert(texts(out@) =~= before.push(piece));
                    assert(before.push(piece) + rest =~= before + (seq![piece] + rest));
                }
            },
            None => {
                proof {
                    assert(before + (Seq::<Seq<char>>::empty() + rest) =~= before + rest);
                }
            },
        }
        from = e + 1;
    }
}

/// The media file names that `text` refers to.
pub fn references_in(text: &str) -> (out: Vec<String>)
    ensures
        texts(out@) == media_refs(text@),
{
    let cs = chars_of(text);
    let mut out: Vec<String> = Vec::new();
    assert(texts(out@) =~= Seq::<Seq<char>>::empty());
    collect_image_refs(text, &cs, &mut out);
    collect_sound_refs(text, &cs, &mut out);
    assert(texts(out@) =~= media_refs(text@));
    out
}

/// The media file names that the field values `fields` refer to, field by field.
pub open spec fn field_refs(fields: Seq<Seq<char>>) -> Seq<Seq<char>>
    decreases fields.len(),
{
    if fields.len() == 0 {
        Seq::<Seq<char>>::empty()
    } else {
        field_refs(fields.drop_last()) + media_refs(fields.last())
    }
}

/// Appends the media file names that the field values `fields` refer to.
pub fn collect_field_refs(fields: &Vec<String>, out: &mut Vec<String>)
    ensures
        texts(final(out)@) == texts(old(out)@) + field_refs(texts(fields@)),
{
    let ghost start = texts(out@);
    let ghost all = texts(fields@);
    let mut i: usize = 0;
    assert(all.take(0).len() == 0);
    assert(start + field_refs(all.take(0)) =~= start);
    while i < fields.len()
        invariant
            i <= fields.len(),
            all == texts(fields@),
            texts(out@) == start + field_refs(all.take(i as int)),
        decreases fields.len() - i,
    {
        let ghost before = texts(out@);
        let text = fields[i].as_str();
        let cs = chars_of(text);
        collect_image_refs(text, &cs, out);
        collect_sound_refs(text, &cs, out);
        proof {
            assert(all.take(i + 1).drop_last() == all.take(i as int));
            assert(all.take(i + 1).last() == text@);
            assert(texts(out@) =~= start + (field_refs(all.take(i as int)) + media_refs(text@)));
        }
        i += 1;
    }
    assert(all.take(i as int) == all);
}

} // verus!
