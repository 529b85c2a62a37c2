//! What the metadata panel shows of a package version.
use vstd::prelude::*;

use crate::gentoo::portage_loader::{chrono_secs_in_range, utc_date_text, utc_text};

use crate::gentoo::package::Metadata;
use crate::text::{opt_view, strs_view};

verus! {

/// An optional text, or `Unknown` where it is missing.
pub open spec fn or_unknown(o: Option<Seq<char>>) -> Seq<char> {
    match o {
        Some(s) => s,
        None => "Unknown"@,
    }
}

/// The labelled lines of the panel, label first: maintainer, version, repository,
/// license and description, each missing one shown as `Unknown`.
pub open spec fn metadata_lines(version: Seq<char>, m: Metadata) -> Seq<(Seq<char>, Seq<char>)> {
    seq![
        ("Maintainer: "@, or_unknown(opt_view(m.maintainer))),
        ("Version: "@, version),
        ("Repository: "@, m.repository@),
        ("License: "@, or_unknown(opt_view(m.license))),
        ("Description: "@, or_unknown(opt_view(m.description))),
    ]
}

fn text_or_unknown(o: &Option<String>) -> (r: String)
    ensures
        r@ == or_unknown(opt_view(*o)),
{
    match o {
        Some(s) => s.clone(),
        None => String::from_str("Unknown"),
    }
}

/// The labelled lines of the metadata panel.
pub fn metadata_fields(pkg_version: &String, metadata: &Metadata) -> (r: Vec<(&'static str, String)>)
    ensures
        r@.map_values(|l: (&str, String)| (l.0@, l.1@)) == metadata_lines(pkg_version@, *metadata),
{
    let r = vec![
        ("Maintainer: ", text_or_unknown(&metadata.maintainer)),
        ("Version: ", pkg_version.clone()),
        ("Repository: ", metadata.repository.clone()),
        ("License: ", text_or_unknown(&metadata.license)),
        ("Description: ", text_or_unknown(&metadata.description)),
    ];
    assert(r@.map_values(|l: (&str, String)| (l.0@, l.1@)) =~= metadata_lines(pkg_version@, *metadata));
    r
}

/// The homepages that are not empty, in order.
pub open spec fn listed_homepages(h: Seq<Seq<char>>) -> Seq<Seq<char>> {
    h.filter(|u: Seq<char>| u.len() > 0)
}

/// The homepages that the panel lists: those that are not empty.
pub fn homepage_urls(metadata: &Metadata) -> (r: Vec<String>)
    ensures
        strs_view(r@) == listed_homepages(strs_view(metadata.homepage@)),
{
    let ghost hv = strs_view(metadata.homepage@);
    let mut out: Vec<String> = Vec::new();
    let n = metadata.homepage.len();
    let mut i: usize = 0;
    assert(hv.take(0) =~= seq![]);
    while i < n
        invariant
            n == metadata.homepage@.len(),
            hv == strs_view(metadata.homepage@),
            i <= n,
            strs_view(out@) == listed_homepages(hv.take(i as int)),
        decreases n - i,
    {
        let ghost before = out@;
        proof {
            assert(hv.take(i + 1) =~= hv.take(i as int).push(hv[i as int]));
            reveal_with_fuel(Seq::filter, 1);
            assert(hv.take(i + 1).drop_last() =~= hv.take(i as int));
        }
        if metadata.homepage[i].as_str().unicode_len() > 0 {
            let u = metadata.homepage[i].clone();
            out.push(u);
            assert(strs_view(out@) =~= strs_view(before).push(u@));
        }
        i = i + 1;
    }
    assert(hv.take(n as int) =~= hv);
    out
}

} // verus!

verus! {

/// The build time as the metadata pane shows it: chrono's text for the UTC date and
/// time `secs` seconds after the Unix epoch, or for the epoch itself where chrono makes
/// no date of `secs`.
pub fn build_time_text(secs: i64) -> (r: String)
    ensures
        r@ == utc_text(if chrono_secs_in_range(secs) { secs } else { 0 }),
{
    match utc_date_text(secs) {
        Some(t) => t,
        None => utc_date_text(0).unwrap(),
    }
}

} // verus!
