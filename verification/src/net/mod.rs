//! What the manager does with a host: listings of remote folders, the
//! car and track catalogues, the statistics sampler, and the commands
//! and steps of its SSH, SFTP and Docker work.
use vstd::prelude::*;
use crate::text::{
    lemma_split_char_concat, lemma_split_char_nonempty, lemma_trim_drop_last_ws, lemma_views_push, split_char,
    strip_cr, lines, lines_chars, str_chars, string_views, strip_prefixes, strip_prefixes_chars,
    to_strings, trim, trim_chars, views,
};

pub mod cars;
pub mod catalog;
pub mod docker;
pub mod sftp;
pub mod ssh;
pub mod stats;
pub mod stats_polling;
pub mod tracks;

verus! {

/// One entry of a `find` listing: the line trimmed, with its leading
/// `./` prefixes removed.
pub open spec fn dir_entry(line: Seq<char>) -> Seq<char> {
    strip_prefixes(trim(line), seq!['.', '/'])
}

/// The non-empty entries of the listing lines `ls`, in order.
pub open spec fn dir_entries(ls: Seq<Seq<char>>) -> Seq<Seq<char>>
    decreases ls.len(),
{
    if ls.len() == 0 {
        Seq::empty()
    } else {
        let prev = dir_entries(ls.drop_last());
        let e = dir_entry(ls.last());
        if e.len() > 0 {
            prev.push(e)
        } else {
            prev
        }
    }
}

/// The directory names of a `find . -type d` listing.
pub open spec fn directory_list(output: Seq<char>) -> Seq<Seq<char>> {
    dir_entries(lines(output))
}

/// The directory names that a `find . -maxdepth 1 -type d` listing
/// names: one per non-blank line, trimmed and without `./`.
pub fn parse_directory_list(output: &str) -> (r: Vec<String>)
    ensures
        string_views(r@) == directory_list(output@),
{
    let chars = str_chars(output);
    let ls = lines_chars(chars.as_slice());
    let prefix: Vec<char> = vec!['.', '/'];
    assert(prefix@ =~= seq!['.', '/']);
    let mut out: Vec<Vec<char>> = Vec::new();
    let mut i: usize = 0;
    while i < ls.len()
        invariant
            i <= ls.len(),
            prefix@ == seq!['.', '/'],
            views(out@) == dir_entries(views(ls@).take(i as int)),
        decreases ls.len() - i,
    {
        let t = trim_chars(ls[i].as_slice());
        let e = strip_prefixes_chars(t.as_slice(), prefix.as_slice());
        let ghost tk = views(ls@).take(i + 1);
        assert(tk.drop_last() =~= views(ls@).take(i as int));
        assert(tk.last() == ls@[i as int]@);
        if e.len() > 0 {
            proof {
                lemma_views_push(out@, e);
            }
            out.push(e);
        }
        i = i + 1;
    }
    assert(views(ls@).take(ls.len() as int) =~= views(ls@));
    to_strings(&out)
}

proof fn lemma_dir_entry_cr(l: Seq<char>)
    ensures
        dir_entry(strip_cr(l)) == dir_entry(l),
        dir_entry(Seq::<char>::empty()).len() == 0,
{
    if l.len() > 0 && l.last() == '\r' {
        assert(crate::text::is_ws('\r'));
        lemma_trim_drop_last_ws(l);
    }
    let e = Seq::<char>::empty();
    assert(trim(e) == e);
}

proof fn lemma_dir_entries_concat(xs: Seq<Seq<char>>, ys: Seq<Seq<char>>)
    ensures
        dir_entries(xs + ys) == dir_entries(xs) + dir_entries(ys),
    decreases ys.len(),
{
    if ys.len() == 0 {
        assert(xs + ys =~= xs);
        assert(dir_entries(xs) + dir_entries(ys) =~= dir_entries(xs));
    } else {
        lemma_dir_entries_concat(xs, ys.drop_last());
        assert((xs + ys).drop_last() =~= xs + ys.drop_last());
        assert((xs + ys).last() == ys.last());
        let e = dir_entry(ys.last());
        if e.len() > 0 {
            assert((dir_entries(xs) + dir_entries(ys.drop_last())).push(e) =~= dir_entries(xs) + dir_entries(
                ys.drop_last(),
            ).push(e));
        }
    }
}

proof fn lemma_dir_entries_strip_cr(xs: Seq<Seq<char>>)
    ensures
        dir_entries(xs.map_values(|l: Seq<char>| strip_cr(l))) == dir_entries(xs),
    decreases xs.len(),
{
    if xs.len() > 0 {
        let m = xs.map_values(|l: Seq<char>| strip_cr(l));
        lemma_dir_entries_strip_cr(xs.drop_last());
        assert(m.drop_last() =~= xs.drop_last().map_values(|l: Seq<char>| strip_cr(l)));
        lemma_dir_entry_cr(xs.last());
    }
}

proof fn lemma_directory_list_pieces(s: Seq<char>)
    ensures
        directory_list(s) == dir_entries(split_char(s, '\n')),
{
    let p = split_char(s, '\n');
    lemma_split_char_nonempty(s, '\n');
    let body = p.drop_last().map_values(|l: Seq<char>| strip_cr(l));
    lemma_dir_entries_strip_cr(p.drop_last());
    lemma_dir_entry_cr(p.last());
    assert(p.drop_last().push(p.last()) =~= p);
    if p.last().len() > 0 {
        assert(body.push(p.last()).drop_last() =~= body);
    }
}

/// A listing made of two listings joined by a newline names the
/// directories of the first and then those of the second.
pub proof fn lemma_directory_list_concat(a: Seq<char>, b: Seq<char>)
    ensures
        directory_list(a.push('\n') + b) == directory_list(a) + directory_list(b),
{
    lemma_split_char_concat(a, b, '\n');
    lemma_directory_list_pieces(a.push('\n') + b);
    lemma_directory_list_pieces(a);
    lemma_directory_list_pieces(b);
    lemma_dir_entries_concat(split_char(a, '\n'), split_char(b, '\n'));
}

} // verus!
