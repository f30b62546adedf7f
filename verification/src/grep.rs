use vstd::prelude::*;
use crate::text::split_lines;
use crate::text::split_into_lines;

verus! {

/// Whether `needle` occurs as a contiguous run of characters in `hay`.
pub open spec fn contains_seq(hay: Seq<char>, needle: Seq<char>) -> bool {
    exists|k: int|
        0 <= k <= hay.len() - needle.len() && #[trigger] hay.subrange(k, k + needle.len() as int)
            == needle
}

/// Whether `needle` stands in `hay` starting at position `k`.
fn match_at(hay: &str, needle: &str, k: usize, hay_len: usize, needle_len: usize) -> (r: bool)
    requires
        hay_len == hay@.len(),
        needle_len == needle@.len(),
        k + needle_len <= hay_len,
    ensures
        r == (hay@.subrange(k as int, k as int + needle@.len() as int) == needle@),
{
    let mut j: usize = 0;
    while j < needle_len
        invariant
            j <= needle_len,
            hay_len == hay@.len(),
            needle_len == needle@.len(),
            k + needle_len <= hay_len,
            forall|j2: int| 0 <= j2 < j ==> hay@[k + j2] == needle@[j2],
        decreases needle_len - j,
    {
        if hay.get_char(k + j) != needle.get_char(j) {
            proof {
                assert(hay@.subrange(k as int, k as int + needle@.len() as int)[j as int]
                    != needle@[j as int]);
            }
            return false;
        }
        j = j + 1;
    }
    proof {
        assert(hay@.subrange(k as int, k as int + needle@.len() as int) =~= needle@);
    }
    true
}

/// Whether `needle` occurs anywhere in `hay`, as `str::contains` decides.
pub fn str_contains(hay: &str, needle: &str) -> (r: bool)
    ensures
        r == contains_seq(hay@, needle@),
{
    let hay_len = hay.unicode_len();
    let needle_len = needle.unicode_len();
    if needle_len > hay_len {
        return false;
    }
    if needle_len == 0 {
        proof {
            assert(hay@.subrange(0, 0 + needle@.len() as int) =~= needle@);
        }
        return true;
    }
    let mut k: usize = 0;
    while k <= hay_len - needle_len
        invariant
            hay_len == hay@.len(),
            needle_len == needle@.len(),
            0 < needle_len <= hay_len,
            k <= hay_len - needle_len + 1,
            forall|k2: int|
                0 <= k2 < k ==> #[trigger] hay@.subrange(k2, k2 + needle@.len() as int)
                    != needle@,
        decreases hay_len - k,
    {
        if match_at(hay, needle, k, hay_len, needle_len) {
            return true;
        }
        k = k + 1;
    }
    false
}

/// Whether two strings hold the same characters.
pub fn str_eq(a: &str, b: &str) -> (r: bool)
    ensures
        r == (a@ == b@),
{
    let na = a.unicode_len();
    let nb = b.unicode_len();
    if na != nb {
        return false;
    }
    let mut i: usize = 0;
    while i < na
        invariant
            i <= na,
            na == a@.len(),
            nb == b@.len(),
            na == nb,
            forall|j: int| 0 <= j < i ==> a@[j] == b@[j],
        decreases na - i,
    {
        if a.get_char(i) != b.get_char(i) {
            return false;
        }
        i = i + 1;
    }
    proof {
        assert(a@ =~= b@);
    }
    true
}

/// The sequence of characters that `str::to_lowercase` maps `s` to.
pub uninterp spec fn lower_of(s: Seq<char>) -> Seq<char>;

/// Relies on `str::to_lowercase`: the result is a function of the
/// characters of `s` alone.
#[verifier::external_body]
fn lowercase(s: &str) -> (r: String)
    ensures
        r@ == lower_of(s@),
{
    s.to_lowercase()
}

/// The lines of `contents` that contain `query`.
pub fn search<'a>(query: &str, contents: &'a str) -> (results: Vec<&'a str>)
    ensures
        results@.map_values(|l: &str| l@) == split_lines(contents@).filter(
            |l: Seq<char>| contains_seq(l, query@),
        ),
{
    let lines = split_into_lines(contents);
    let mut results: Vec<&'a str> = Vec::new();
    let mut i: usize = 0;
    proof {
        assert(split_lines(contents@).take(0) =~= Seq::<Seq<char>>::empty());
        reveal(Seq::filter);
    }
    while i < lines.len()
        invariant
            lines@.map_values(|l: &str| l@) == split_lines(contents@),
            i <= lines.len(),
            results@.map_values(|l: &str| l@) == split_lines(contents@).take(i as int).filter(
                |l: Seq<char>| contains_seq(l, query@),
            ),
        decreases lines.len() - i,
    {
        let line = lines[i];
        let ghost all = split_lines(contents@);
        let ghost pred = |l: Seq<char>| contains_seq(l, query@);
        proof {
            reveal(Seq::filter);
            assert(all[i as int] == lines@.map_values(|l: &str| l@)[i as int]);
            assert(all.take(i as int + 1).drop_last() =~= all.take(i as int));
            assert(all.take(i as int + 1).last() == line@);
        }
        let ghost prev = results@;
        if str_contains(line, query) {
            results.push(line);
            proof {
                assert(results@.map_values(|l: &str| l@) =~~= prev.map_values(|l: &str| l@)
                    + seq![line@]);
                assert(all.take(i as int + 1).filter(pred) =~~= all.take(i as int).filter(
                    pred,
                ).push(line@));
            }
        } else {
            proof {
                assert(all.take(i as int + 1).filter(pred) =~~= all.take(i as int).filter(pred));
            }
        }
        i = i + 1;
    }
    proof {
        assert(split_lines(contents@).take(lines@.len() as int) =~= split_lines(contents@));
    }
    results
}

/// The lines of `contents` that contain `query` once both are lowercased.
pub fn search_case_insensitive<'a>(query: &str, contents: &'a str) -> (results: Vec<&'a str>)
    ensures
        results@.map_values(|l: &str| l@) == split_lines(contents@).filter(
            |l: Seq<char>| contains_seq(lower_of(l), lower_of(query@)),
        ),
{
    let query_lower = lowercase(query);
    let lines = split_into_lines(contents);
    let mut results: Vec<&'a str> = Vec::new();
    let mut i: usize = 0;
    proof {
        assert(split_lines(contents@).take(0) =~= Seq::<Seq<char>>::empty());
        reveal(Seq::filter);
    }
    while i < lines.len()
        invariant
            lines@.map_values(|l: &str| l@) == split_lines(contents@),
            query_lower@ == lower_of(query@),
            i <= lines.len(),
            results@.map_values(|l: &str| l@) == split_lines(contents@).take(i as int).filter(
                |l: Seq<char>| contains_seq(lower_of(l), lower_of(query@)),
            ),
        decreases lines.len() - i,
    {
        let line = lines[i];
        let ghost all = split_lines(contents@);
        let ghost pred = |l: Seq<char>| contains_seq(lower_of(l), lower_of(query@));
        proof {
            reveal(Seq::filter);
            assert(all[i as int] == lines@.map_values(|l: &str| l@)[i as int]);
            assert(all.take(i as int + 1).drop_last() =~= all.take(i as int));
            assert(all.take(i as int + 1).last() == line@);
        }
        let line_lower = lowercase(line);
        let ghost prev = results@;
        if str_contains(line_lower.as_str(), query_lower.as_str()) {
            results.push(line);
            proof {
                assert(results@.map_values(|l: &str| l@) =~~= prev.map_values(|l: &str| l@)
                    + seq![line@]);
                assert(all.take(i as int + 1).filter(pred) =~~= all.take(i as int).filter(
                    pred,
                ).push(line@));
            }
        } else {
            proof {
                assert(all.take(i as int + 1).filter(pred) =~~= all.take(i as int).filter(pred));
            }
        }
        i = i + 1;
    }
    proof {
        assert(split_lines(contents@).take(lines@.len() as int) =~= split_lines(contents@));
    }
    results
}

/// How a search is configured: what to look for, in which file, and
/// whether case matters.
pub struct Config {
    pub query: String,
    pub filename: String,
    pub case_sensitive: bool,
}

impl Config {
    /// Builds a `Config` from the command-line arguments: the program name,
    /// then the query, then the filename, then optionally `--insensitive`.
    /// When the third argument is absent, case sensitivity falls back to
    /// whether the `CASE_INSENSITIVE` environment variable is unset; the
    /// caller passes whether it is set as `case_insensitive_env`.
    pub fn new(args: Vec<String>, case_insensitive_env: bool) -> (r: Result<Config, &'static str>)
        ensures
            args@.len() < 2 ==> (r matches Err(e) && e@ == "Didn't get a query string"@),
            args@.len() == 2 ==> (r matches Err(e) && e@ == "Didn't get a filename"@),
            args@.len() >= 3 ==> (r matches Ok(c) && c.query@ == args@[1]@ && c.filename@
                == args@[2]@ && (args@.len() >= 4 ==> c.case_sensitive == (args@[3]@
                != "--insensitive"@)) && (args@.len() == 3 ==> c.case_sensitive
                == !case_insensitive_env)),
    {
        if args.len() < 2 {
            return Err("Didn't get a query string");
        }
        if args.len() < 3 {
            return Err("Didn't get a filename");
        }
        let query = args[1].clone();
        let filename = args[2].clone();
        let case_sensitive = if args.len() >= 4 {
            !str_eq(args[3].as_str(), "--insensitive")
        } else {
            !case_insensitive_env
        };
        Ok(Config { query, filename, case_sensitive })
    }
}

} // verus!
