//! Repository catalog entries, the eligibility rule for counting, and the
//! construction of one counting URL per eligible repository.

use vstd::prelude::*;
use vstd::string::*;
use crate::numfmt::{digit_char, digit_str};
use crate::strutil::{matches_at, replace_all, str_replace};

verus! {

/// One repository as read from the host configuration store: only the fields
/// the counting decision needs.
#[derive(Debug, PartialEq, Eq)]
pub struct RepoEntry {
    /// Identifier, unique within the catalog.
    pub id: String,
    /// Whether the repository is enabled at all.
    pub enabled: bool,
    /// Whether the administrator opted into anonymous usage counting.
    pub countme: bool,
    /// Metalink URL template; the release version placeholder is substituted
    /// at request time.
    pub metalink: String,
}

/// The mathematical value of a catalog entry.
pub struct RepoView {
    pub id: Seq<char>,
    pub enabled: bool,
    pub countme: bool,
    pub metalink: Seq<char>,
}

impl View for RepoEntry {
    type V = RepoView;

    open spec fn view(&self) -> RepoView {
        RepoView {
            id: self.id@,
            enabled: self.enabled,
            countme: self.countme,
            metalink: self.metalink@,
        }
    }
}

/// A repository takes part in counting only when it is enabled, explicitly
/// opted in, and has a metalink to direct the request to.
pub open spec fn spec_eligible(r: RepoEntry) -> bool {
    r.enabled && r.countme && r.metalink@.len() > 0
}

/// The eligible entries of a catalog, in catalog order.
pub open spec fn eligible_entries(rs: Seq<RepoEntry>) -> Seq<RepoEntry> {
    rs.filter(|r: RepoEntry| spec_eligible(r))
}

/// Exactly the eligible repositories are selected, no more than the catalog
/// holds: every selected entry is eligible, and every eligible entry of the
/// catalog appears among the selected ones, whose order is the catalog's.
pub proof fn lemma_selection_exact(rs: Seq<RepoEntry>)
    ensures
        forall|i: int|
            0 <= i < eligible_entries(rs).len() ==> spec_eligible(
                #[trigger] eligible_entries(rs)[i],
            ),
        forall|i: int|
            0 <= i < rs.len() && spec_eligible(rs[i]) ==> eligible_entries(rs).contains(
                #[trigger] rs[i],
            ),
        eligible_entries(rs).len() <= rs.len(),
{
    broadcast use vstd::seq_lib::group_filter_ensures;

}

/// A catalog whose entries all satisfy `pred` is left whole by filtering.
proof fn lemma_filter_of_satisfying(s: Seq<RepoEntry>, pred: spec_fn(RepoEntry) -> bool)
    requires
        forall|i: int| 0 <= i < s.len() ==> pred(#[trigger] s[i]),
    ensures
        s.filter(pred) == s,
    decreases s.len(),
{
    reveal(Seq::filter);
    if s.len() > 0 {
        assert(forall|i: int| 0 <= i < s.drop_last().len() ==> pred(#[trigger] s.drop_last()[i]));
        lemma_filter_of_satisfying(s.drop_last(), pred);
        assert(pred(s.last()));
        assert(s.filter(pred) =~= s.drop_last().push(s.last()));
        assert(s.drop_last().push(s.last()) =~= s);
    } else {
        assert(s.filter(pred) =~= s);
    }
}

/// Selection is idempotent: filtering an already filtered catalog changes
/// nothing.
pub proof fn lemma_selection_idempotent(rs: Seq<RepoEntry>)
    ensures
        eligible_entries(eligible_entries(rs)) == eligible_entries(rs),
{
    broadcast use vstd::seq_lib::group_filter_ensures;

    let pred = |r: RepoEntry| spec_eligible(r);
    assert(forall|i: int|
        0 <= i < eligible_entries(rs).len() ==> pred(#[trigger] eligible_entries(rs)[i]));
    lemma_filter_of_satisfying(eligible_entries(rs), pred);
}

impl RepoEntry {
    /// True when this repository should be counted.
    pub fn count_me(&self) -> (r: bool)
        ensures
            r == spec_eligible(*self),
    {
        self.enabled && self.countme && !self.metalink.as_str().is_empty()
    }
}

/// Keeps exactly the eligible entries of the catalog, in catalog order.
pub fn filter_eligible(repos: Vec<RepoEntry>) -> (r: Vec<RepoEntry>)
    ensures
        r@ == eligible_entries(repos@),
{
    let ghost orig = repos@;
    let ghost pred = |e: RepoEntry| spec_eligible(e);
    let mut rest = repos;
    let mut out: Vec<RepoEntry> = Vec::new();
    proof {
        reveal(Seq::filter);
        assert(orig.skip(0) =~= orig);
        assert(orig.take(0) =~= Seq::<RepoEntry>::empty());
        assert(out@ == orig.take(0).filter(pred));
    }
    while rest.len() > 0
        invariant
            rest@.len() <= orig.len(),
            rest@ == orig.skip(orig.len() - rest@.len()),
            out@ == orig.take(orig.len() - rest@.len()).filter(pred),
            pred == (|e: RepoEntry| spec_eligible(e)),
        decreases rest.len(),
    {
        let ghost i = orig.len() - rest@.len();
        let entry = rest.remove(0);
        proof {
            assert(entry == orig.skip(i)[0]);
            assert(entry == orig[i]);
            assert(rest@ =~= orig.skip(i + 1));
            reveal(Seq::filter);
            assert(orig.take(i + 1).drop_last() =~= orig.take(i));
            assert(orig.take(i + 1).last() == orig[i]);
        }
        if entry.count_me() {
            out.push(entry);
        }
        proof {
            assert(out@ == orig.take(i + 1).filter(pred));
        }
    }
    proof {
        assert(orig.take(orig.len() as int) =~= orig);
    }
    out
}

/// The counting URL for one repository: the metalink template with every
/// occurrence of the release version placeholder replaced by `version`, with
/// the window bucket appended as a query parameter.
pub open spec fn spec_url(metalink: Seq<char>, version: Seq<char>, bucket: u32) -> Seq<char> {
    replace_all(metalink, "$releasever"@, version) + "&countme="@ + seq![digit_char(bucket as int)]
}

/// Builds the counting URL for one repository.
pub fn build_url(metalink: &str, version: &str, bucket: u32) -> (r: String)
    requires
        1 <= bucket <= 4,
    ensures
        r@ == spec_url(metalink@, version@, bucket),
{
    let mut url = str_replace(metalink, "$releasever", version);
    url.append("&countme=");
    url.append(digit_str(bucket as u64));
    proof {
        assert(url@ =~= spec_url(metalink@, version@, bucket));
    }
    url
}

/// Builds the counting URLs for a catalog of already-filtered repositories,
/// one per entry, in order.
pub fn build_urls(repos: &Vec<RepoEntry>, version: &str, bucket: u32) -> (urls: Vec<String>)
    requires
        1 <= bucket <= 4,
    ensures
        urls@.len() == repos@.len(),
        forall|i: int|
            0 <= i < repos@.len() ==> urls@[i]@ == spec_url(
                repos@[i].metalink@,
                version@,
                bucket,
            ),
{
    let mut urls: Vec<String> = Vec::new();
    let mut i: usize = 0;
    while i < repos.len()
        invariant
            0 <= i <= repos@.len(),
            urls@.len() == i,
            1 <= bucket <= 4,
            forall|j: int|
                0 <= j < i ==> urls@[j]@ == spec_url(repos@[j].metalink@, version@, bucket),
        decreases repos@.len() - i,
    {
        let url = build_url(repos[i].metalink.as_str(), version, bucket);
        urls.push(url);
        i = i + 1;
    }
    urls
}

/// A section header line: an identifier between square brackets.
pub open spec fn is_section_line(l: Seq<char>) -> bool {
    l.len() >= 2 && l[0] == '[' && l.last() == ']'
}

/// The identifier inside a section header line.
pub open spec fn section_name(l: Seq<char>) -> Seq<char> {
    l.subrange(1, l.len() - 1)
}

/// True when `p` is a prefix of `l`.
pub open spec fn has_prefix(l: Seq<char>, p: Seq<char>) -> bool {
    l.len() >= p.len() && l.subrange(0, p.len() as int) == p
}

/// The entry a section header opens: enabled by default, counting only on
/// explicit opt-in, no metalink yet.
pub open spec fn fresh_entry(id: Seq<char>) -> RepoView {
    RepoView { id, enabled: true, countme: false, metalink: Seq::empty() }
}

/// The effect of one configuration line on the entry being read: the three
/// recognised keys set their field, anything else is ignored.
pub open spec fn apply_line(e: RepoView, l: Seq<char>) -> RepoView {
    if l == "enabled=1"@ {
        RepoView { id: e.id, enabled: true, countme: e.countme, metalink: e.metalink }
    } else if l == "enabled=0"@ {
        RepoView { id: e.id, enabled: false, countme: e.countme, metalink: e.metalink }
    } else if l == "countme=1"@ {
        RepoView { id: e.id, enabled: e.enabled, countme: true, metalink: e.metalink }
    } else if has_prefix(l, "metalink="@) {
        RepoView {
            id: e.id,
            enabled: e.enabled,
            countme: e.countme,
            metalink: l.skip("metalink="@.len() as int),
        }
    } else {
        e
    }
}

/// The catalog read from configuration lines: a section header opens an
/// entry and flushes the previous one; key lines fill the open entry; lines
/// before the first section are ignored.
pub open spec fn catalog_rec(lines: Seq<Seq<char>>, cur: Option<RepoView>) -> Seq<RepoView>
    decreases lines.len(),
{
    if lines.len() == 0 {
        match cur {
            None => Seq::empty(),
            Some(e) => seq![e],
        }
    } else if is_section_line(lines[0]) {
        match cur {
            None => catalog_rec(lines.skip(1), Some(fresh_entry(section_name(lines[0])))),
            Some(e) => seq![e] + catalog_rec(
                lines.skip(1),
                Some(fresh_entry(section_name(lines[0]))),
            ),
        }
    } else {
        match cur {
            None => catalog_rec(lines.skip(1), None),
            Some(e) => catalog_rec(lines.skip(1), Some(apply_line(e, lines[0]))),
        }
    }
}

/// The catalog read from a whole configuration, line by line.
pub open spec fn spec_catalog(lines: Seq<Seq<char>>) -> Seq<RepoView> {
    catalog_rec(lines, None)
}

/// The view of an entry in progress.
pub open spec fn opt_view(cur: Option<RepoEntry>) -> Option<RepoView> {
    match cur {
        None => None,
        Some(e) => Some(e@),
    }
}

/// Applies one configuration line to the entry being read.
fn apply_line_exec(e: RepoEntry, l: &str) -> (r: RepoEntry)
    ensures
        r@ == apply_line(e@, l@),
{
    proof {
        reveal_strlit("enabled=1");
        reveal_strlit("enabled=0");
        reveal_strlit("countme=1");
        reveal_strlit("metalink=");
    }
    let len = l.unicode_len();
    let ghost ev = e@;
    if len == 9 && matches_at(l, "enabled=1", 0) {
        proof {
            assert(l@.subrange(0, 9) =~= l@);
        }
        RepoEntry { id: e.id, enabled: true, countme: e.countme, metalink: e.metalink }
    } else if len == 9 && matches_at(l, "enabled=0", 0) {
        proof {
            assert(l@.subrange(0, 9) =~= l@);
            assert(l@ != "enabled=1"@);
        }
        RepoEntry { id: e.id, enabled: false, countme: e.countme, metalink: e.metalink }
    } else if len == 9 && matches_at(l, "countme=1", 0) {
        proof {
            assert(l@.subrange(0, 9) =~= l@);
            assert(l@ != "enabled=1"@ && l@ != "enabled=0"@);
        }
        RepoEntry { id: e.id, enabled: e.enabled, countme: true, metalink: e.metalink }
    } else if len >= 9 && matches_at(l, "metalink=", 0) {
        let rest = l.substring_char(9, len);
        let r = RepoEntry {
            id: e.id,
            enabled: e.enabled,
            countme: e.countme,
            metalink: String::from_str(rest),
        };
        proof {
            assert(rest@ =~= l@.skip(9));
            assert(l@ != "enabled=1"@ && l@ != "enabled=0"@ && l@ != "countme=1"@) by {
                if l@ == "enabled=1"@ || l@ == "enabled=0"@ || l@ == "countme=1"@ {
                    assert(l@.subrange(0, 9) =~= l@);
                }
            }
            assert(r@ == apply_line(ev, l@));
        }
        r
    } else {
        proof {
            assert(l@ != "enabled=1"@) by {
                if l@ == "enabled=1"@ {
                    assert(l@.subrange(0, 9) =~= l@);
                }
            }
            assert(l@ != "enabled=0"@) by {
                if l@ == "enabled=0"@ {
                    assert(l@.subrange(0, 9) =~= l@);
                }
            }
            assert(l@ != "countme=1"@) by {
                if l@ == "countme=1"@ {
                    assert(l@.subrange(0, 9) =~= l@);
                }
            }
            assert(!has_prefix(l@, "metalink="@));
        }
        e
    }
}

/// Reads the catalog from the lines of the host repository configuration.
pub fn parse_catalog(lines: &Vec<String>) -> (r: Vec<RepoEntry>)
    ensures
        r@.map_values(|e: RepoEntry| e@) == spec_catalog(lines@.map_values(|l: String| l@)),
{
    let ghost lviews = lines@.map_values(|l: String| l@);
    let mut out: Vec<RepoEntry> = Vec::new();
    let mut cur: Option<RepoEntry> = None;
    let mut i: usize = 0;
    proof {
        assert(lviews.skip(0) =~= lviews);
        assert(out@.map_values(|e: RepoEntry| e@) =~= Seq::<RepoView>::empty());
        assert(Seq::<RepoView>::empty() + spec_catalog(lviews) =~= spec_catalog(lviews));
    }
    while i < lines.len()
        invariant
            0 <= i <= lines@.len(),
            lviews == lines@.map_values(|l: String| l@),
            out@.map_values(|e: RepoEntry| e@) + catalog_rec(lviews.skip(i as int), opt_view(cur))
                == spec_catalog(lviews),
        decreases lines@.len() - i,
    {
        let ghost out_views = out@.map_values(|e: RepoEntry| e@);
        let ghost cur_view = opt_view(cur);
        let ghost tail = lviews.skip(i as int);
        let line = lines[i].as_str();
        proof {
            assert(tail[0] == lviews[i as int]);
            assert(tail.skip(1) =~= lviews.skip(i as int + 1));
        }
        let len = line.unicode_len();
        let is_sec = len >= 2 && line.get_char(0) == '[' && {
            let close = line.get_char(len - 1);
            close == ']'
        };
        if is_sec {
            let name = line.substring_char(1, len - 1);
            let entry = RepoEntry {
                id: String::from_str(name),
                enabled: true,
                countme: false,
                metalink: String::new(),
            };
            proof {
                assert(is_section_line(line@));
                assert(name@ =~= section_name(line@));
                assert(entry@ == fresh_entry(section_name(line@)));
            }
            let prev = cur;
            cur = Some(entry);
            match prev {
                Some(e) => {
                    out.push(e);
                    proof {
                        assert(out@.map_values(|e2: RepoEntry| e2@) =~= out_views.push(e@));
                        assert(catalog_rec(tail, cur_view) == seq![e@] + catalog_rec(
                            lviews.skip(i as int + 1),
                            opt_view(cur),
                        ));
                        assert(out_views.push(e@) + catalog_rec(
                            lviews.skip(i as int + 1),
                            opt_view(cur),
                        ) =~= out_views + (seq![e@] + catalog_rec(
                            lviews.skip(i as int + 1),
                            opt_view(cur),
                        )));
                    }
                },
                None => {
                    proof {
                        assert(catalog_rec(tail, cur_view) == catalog_rec(
                            lviews.skip(i as int + 1),
                            opt_view(cur),
                        ));
                    }
                },
            }
        } else {
            proof {
                assert(!is_section_line(line@));
            }
            cur = match cur {
                None => None,
                Some(e) => Some(apply_line_exec(e, line)),
            };
            proof {
                assert(catalog_rec(tail, cur_view) == catalog_rec(
                    lviews.skip(i as int + 1),
                    opt_view(cur),
                ));
            }
        }
        i = i + 1;
    }
    proof {
        assert(lviews.skip(lines@.len() as int) =~= Seq::<Seq<char>>::empty());
    }
    match cur {
        Some(e) => {
            let ghost out_views = out@.map_values(|e2: RepoEntry| e2@);
            out.push(e);
            proof {
                assert(out@.map_values(|e2: RepoEntry| e2@) =~= out_views.push(e@));
                assert(out_views.push(e@) =~= out_views + seq![e@]);
                assert(out@.map_values(|e2: RepoEntry| e2@) =~= spec_catalog(lviews));
            }
            out
        },
        None => {
            proof {
                assert(out@.map_values(|e2: RepoEntry| e2@) + Seq::<RepoView>::empty()
                    =~= out@.map_values(|e2: RepoEntry| e2@));
            }
            out
        },
    }
}

} // verus!
