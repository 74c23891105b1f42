use vstd::prelude::*;
use vstd::string::{StrSliceExecFns, StringExecFns};
use crate::chars::{is_lower_char, is_upper_char, lower_char_exec, push_char};
use crate::hyphen::{
    class_name_of, drop_trailing_slashes, find_last, hyph_from, hyph_step, hyphenate,
    last_segment, lemma_find_last_push, stem_of, strip_extension,
};

verus! {

/// Walks a parsed markup tree and gives every eligible element a class
/// name derived from the file the tree came from. The only state is the
/// file stem, fixed at construction for the whole pass.
pub struct AddClassnameVisitor {
    filename: String,
}

impl AddClassnameVisitor {
    /// The file stem this visitor was built with.
    pub closed spec fn stem(self) -> Seq<char> {
        self.filename@
    }

    /// Builds a visitor from the path of the file under transformation,
    /// keeping only the path's stem: the final segment, trailing
    /// separators ignored, extension stripped. An empty path gives the
    /// empty stem, which later yields the degenerate class name of a
    /// leading hyphen plus the element part; that boundary behaviour is
    /// kept deliberately.
    pub fn new(file_path: &str) -> (v: Self)
        ensures
            v.stem() == stem_of(file_path@),
    {
        let ghost p = file_path@;
        let n = file_path.unicode_len();

        // Trailing separators do not belong to the final segment.
        proof {
            assert(p.take(n as int) =~= p);
        }
        let mut seg_end: usize = n;
        while seg_end > 0 && file_path.get_char(seg_end - 1) == '/'
            invariant
                p == file_path@,
                n == p.len(),
                0 <= seg_end <= n,
                drop_trailing_slashes(p) == drop_trailing_slashes(p.take(seg_end as int)),
            decreases seg_end,
        {
            proof {
                assert(p.take(seg_end as int).last() == p[seg_end as int - 1]);
                assert(p.take(seg_end as int).drop_last() =~= p.take(seg_end as int - 1));
            }
            seg_end = seg_end - 1;
        }
        let ghost q = p.take(seg_end as int);
        proof {
            if seg_end > 0 {
                assert(q.last() == p[seg_end as int - 1]);
            }
            assert(drop_trailing_slashes(p) == q);
        }

        // Where the final path segment begins: just after the last '/'.
        let mut seg_start: usize = 0;
        let mut i: usize = 0;
        while i < seg_end
            invariant
                p == file_path@,
                n == p.len(),
                seg_end <= n,
                seg_start <= i <= seg_end,
                match find_last(p.take(i as int), '/') {
                    Some(j) => seg_start == j + 1,
                    None => seg_start == 0,
                },
            decreases seg_end - i,
        {
            let c = file_path.get_char(i);
            proof {
                lemma_find_last_push(p.take(i as int), p[i as int], '/');
                assert(p.take(i as int + 1) =~= p.take(i as int).push(p[i as int]));
            }
            if c == '/' {
                seg_start = i + 1;
            }
            i = i + 1;
        }
        let ghost seg = p.subrange(seg_start as int, seg_end as int);
        proof {
            assert(p.take(seg_end as int) == q);
            match find_last(q, '/') {
                Some(k) => {
                    assert(seg =~= q.subrange(k + 1, q.len() as int));
                },
                None => {
                    assert(seg =~= q);
                },
            }
            assert(seg =~= last_segment(q));
        }

        // Where the stem ends: at the last '.' of the segment, unless that
        // dot leads the segment.
        let mut cut: usize = seg_end;
        let mut j: usize = seg_start;
        while j < seg_end
            invariant
                p == file_path@,
                n == p.len(),
                seg_end <= n,
                seg_start <= j <= seg_end,
                seg_start <= cut <= seg_end,
                seg == p.subrange(seg_start as int, seg_end as int),
                match find_last(seg.take(j - seg_start), '.') {
                    Some(d) => if d > 0 {
                        cut == seg_start + d
                    } else {
                        cut == seg_end
                    },
                    None => cut == seg_end,
                },
            decreases seg_end - j,
        {
            let c = file_path.get_char(j);
            proof {
                let rel = j - seg_start;
                lemma_find_last_push(seg.take(rel), seg[rel], '.');
                assert(seg.take(rel + 1) =~= seg.take(rel).push(seg[rel]));
                assert(seg[rel] == p[j as int]);
            }
            if c == '.' && j > seg_start {
                cut = j;
            }
            j = j + 1;
        }
        proof {
            assert(seg.take(seg_end - seg_start) =~= seg);
        }

        // Copy the stem out.
        let mut filename = String::new();
        let mut k: usize = seg_start;
        while k < cut
            invariant
                p == file_path@,
                n == p.len(),
                seg_start <= k <= cut <= n,
                filename@ == p.subrange(seg_start as int, k as int),
            decreases cut - k,
        {
            let c = file_path.get_char(k);
            push_char(&mut filename, c);
            proof {
                assert(p.subrange(seg_start as int, k as int).push(p[k as int]) =~= p.subrange(
                    seg_start as int,
                    k as int + 1,
                ));
            }
            k = k + 1;
        }

        proof {
            match find_last(seg, '.') {
                Some(d) => {
                    if d > 0 {
                        assert(seg.take(d) =~= p.subrange(seg_start as int, seg_start + d));
                    } else {
                        assert(strip_extension(seg) == seg);
                        assert(p.subrange(seg_start as int, cut as int) =~= seg);
                    }
                },
                None => {
                    assert(p.subrange(seg_start as int, cut as int) =~= seg);
                },
            }
        }
        AddClassnameVisitor { filename }
    }

    /// The class name for one element: the hyphenated file stem and the
    /// hyphenated element name, joined with a hyphen.
    pub fn class_name(&self, component_name: &str) -> (r: String)
        ensures
            r@ == class_name_of(self.stem(), component_name@),
    {
        let mut r = self.camel_to_hyphen_case(self.filename.as_str());
        r.append("-");
        let tail = self.camel_to_hyphen_case(component_name);
        r.append(tail.as_str());
        proof {
            reveal_strlit("-");
            assert("-"@ =~= seq!['-']);
        }
        r
    }

    /// Turns an identifier that may mix capitalised words and underscores
    /// into its lower-case, hyphen-separated form.
    pub fn camel_to_hyphen_case(&self, camel_case: &str) -> (r: String)
        ensures
            r@ == hyphenate(camel_case@),
    {
        let ghost s = camel_case@;
        let n = camel_case.unicode_len();
        let mut r = String::new();
        let mut prev_lower: bool = false;
        let mut i: usize = 0;
        while i < n
            invariant
                s == camel_case@,
                n == s.len(),
                0 <= i <= n,
                hyphenate(s) == r@ + hyph_from(s, i as int, prev_lower),
            decreases n - i,
        {
            let ghost r0 = r@;
            let ghost step = hyph_step(s[i as int], prev_lower);
            let c = camel_case.get_char(i);
            if c == '_' {
                push_char(&mut r, '-');
                proof {
                    assert(r@ =~= r0 + step);
                }
            } else if c.is_uppercase() {
                if prev_lower {
                    push_char(&mut r, '-');
                }
                let low = lower_char_exec(c);
                push_char(&mut r, low);
                proof {
                    assert(r@ =~= r0 + step);
                }
            } else {
                let low = lower_char_exec(c);
                push_char(&mut r, low);
                proof {
                    assert(!is_upper_char(c));
                    assert(r@ =~= r0 + step);
                }
            }
            proof {
                assert(r@ + hyph_from(s, i as int + 1, is_lower_char(s[i as int])) =~= r0
                    + hyph_from(s, i as int, prev_lower));
            }
            prev_lower = c.is_lowercase();
            i = i + 1;
        }
        proof {
            assert(r@ + hyph_from(s, n as int, prev_lower) =~= r@);
        }
        r
    }
}

} // verus!
