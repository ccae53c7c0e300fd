//! Scanning marked blocks out of markup text: the trimmed inner texts of
//! the elements whose opening tag holds a marker, each read up to its next
//! closing `</div>`.  Source-supplied markup extractors are built on this
//! scan.

use vstd::prelude::*;

use crate::text::{
    chars_of, find_from, first_match_from, string_of_chars, sub_chars, trim_chars, trim_spec,
};

verus! {

/// The trimmed block texts found scanning from `from`: at each marker
/// occurrence, the text between the tag's closing `>` and the next
/// `</div>`, then onwards from that closing tag.
pub open spec fn scan_div_texts(s: Seq<char>, marker: Seq<char>, from: int) -> Seq<Seq<char>>
    decreases s.len() - from when marker.len() >= 1 && from >= 0
{
    match first_match_from(s, marker, from) {
        Some(m) => {
            let after = m + marker.len();
            match first_match_from(s, seq!['>'], after) {
                Some(gt) => {
                    let start = gt + 1;
                    match first_match_from(s, "</div>"@, start) {
                        Some(end) => seq![trim_spec(s.subrange(start, end))] + scan_div_texts(
                            s,
                            marker,
                            end,
                        ),
                        None => Seq::empty(),
                    }
                },
                None => Seq::empty(),
            }
        },
        None => Seq::empty(),
    }
}

/// Scans the trimmed inner texts of the elements whose opening tag holds
/// the marker.
pub fn div_texts(html: &str, marker: &str) -> (r: Vec<String>)
    requires
        marker@.len() >= 1,
    ensures
        r.deep_view() == scan_div_texts(html@, marker@, 0),
{
    let s = chars_of(html);
    let mk = chars_of(marker);
    let gt_needle = chars_of(">");
    let end_needle = chars_of("</div>");
    proof {
        reveal_strlit(">");
        reveal_strlit("</div>");
        assert(gt_needle@ =~= seq!['>']);
    }
    let slen = s.len();
    let mut out: Vec<String> = Vec::new();
    let mut from: usize = 0;
    let ghost target = scan_div_texts(s@, mk@, 0);
    proof {
        assert(out.deep_view() =~~= Seq::<Seq<char>>::empty());
    }
    loop
        invariant_except_break
            slen == s@.len(),
            s@ == html@,
            mk@ == marker@,
            1 <= mk@.len(),
            gt_needle@ == seq!['>'],
            end_needle@ == "</div>"@,
            1 <= end_needle@.len(),
            from <= s@.len(),
            target == out.deep_view() + scan_div_texts(s@, mk@, from as int),
        ensures
            target == out.deep_view(),
        decreases s@.len() - from,
    {
        let m = match find_from(&s, &mk, from) {
            Some(m) => m,
            None => {
                proof {
                    assert(target =~~= out.deep_view());
                }
                break ;
            },
        };
        let after = m + mk.len();
        let gt = match find_from(&s, &gt_needle, after) {
            Some(gt) => gt,
            None => {
                proof {
                    assert(target =~~= out.deep_view());
                }
                break ;
            },
        };
        let start = gt + 1;
        let end = match find_from(&s, &end_needle, start) {
            Some(end) => end,
            None => {
                proof {
                    assert(target =~~= out.deep_view());
                }
                break ;
            },
        };
        let piece = sub_chars(&s, start, end);
        let trimmed = trim_chars(&piece);
        let ghost pre = out.deep_view();
        out.push(string_of_chars(&trimmed));
        proof {
            let step = scan_div_texts(s@, mk@, from as int);
            let rest = scan_div_texts(s@, mk@, end as int);
            assert(step == seq![trim_spec(s@.subrange(start as int, end as int))] + rest);
            assert(out.deep_view() =~~= pre.push(trimmed@));
            assert(pre + step =~~= out.deep_view() + rest);
        }
        from = end;
    }
    proof {
        assert(out.deep_view() == target);
    }
    out
}

} // verus!
