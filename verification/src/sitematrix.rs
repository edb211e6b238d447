//! Resolving a wiki's database name to its server URL against the site
//! matrix: closed or private sites never resolve, a fixed alias pair maps to
//! one hard-wired server, and otherwise the first entry whose database name
//! matches decides. The matrix itself is fetched and decoded elsewhere; the
//! entries arrive here as plain values.

use vstd::prelude::*;

verus! {

/// The string-valued fields of a site entry that resolution reads.
#[derive(Clone, Copy, Debug, PartialEq, Eq, Structural)]
pub enum SiteKey {
    /// The site's database name.
    Dbname,
    /// The site's server URL.
    Url,
}

/// One site of the site matrix, reduced to what resolution reads.
#[derive(Clone, Debug)]
pub struct SiteEntry {
    /// Whether the entry carries a `closed` marker.
    pub is_closed: bool,
    /// Whether the entry carries a `private` marker.
    pub is_private: bool,
    /// The site's database name, when the entry has one.
    pub dbname: Option<String>,
    /// The site's server URL, when the entry has one.
    pub url: Option<String>,
}

/// The named field of a site entry.
pub open spec fn site_field(site: SiteEntry, key: SiteKey) -> Option<Seq<char>> {
    match key {
        SiteKey::Dbname => match site.dbname {
            Some(d) => Some(d@),
            None => None,
        },
        SiteKey::Url => match site.url {
            Some(u) => Some(u@),
            None => None,
        },
    }
}

/// What one entry yields for `value`: nothing when the site is closed or
/// private or its `key_match` field is absent or different, otherwise its
/// `key_return` field.
pub open spec fn entry_value(
    site: SiteEntry,
    value: Seq<char>,
    key_match: SiteKey,
    key_return: SiteKey,
) -> Option<Seq<char>> {
    if site.is_closed || site.is_private {
        None
    } else {
        match site_field(site, key_match) {
            Some(found) => if found == value {
                site_field(site, key_return)
            } else {
                None
            },
            None => None,
        }
    }
}

/// `w` with every underscore replaced by a hyphen.
pub open spec fn normalized(w: Seq<char>) -> Seq<char> {
    w.map_values(|c: char| if c == '_' { '-' } else { c })
}

/// The URL of the first entry from `i` on whose database name is `wiki`.
pub open spec fn first_site_url(sites: Seq<SiteEntry>, wiki: Seq<char>, i: int) -> Option<
    Seq<char>,
>
    decreases sites.len() - i,
{
    if i < 0 || i >= sites.len() {
        None
    } else {
        match entry_value(sites[i], wiki, SiteKey::Dbname, SiteKey::Url) {
            Some(u) => Some(u),
            None => first_site_url(sites, wiki, i + 1),
        }
    }
}

/// The server URL for `wiki`: the hard-wired server for the two spellings of
/// the one aliased wiki, otherwise the first matching site-matrix entry.
pub open spec fn server_url_spec(sites: Seq<SiteEntry>, wiki: Seq<char>) -> Option<Seq<char>> {
    if normalized(wiki) == "be-taraskwiki"@ || normalized(wiki) == "be-x-oldwiki"@ {
        Some("https://be-tarask.wikipedia.org"@)
    } else {
        first_site_url(sites, wiki, 0)
    }
}

/// Reads `key_return` from a site entry when the site is open and its
/// `key_match` field equals `value`.
pub fn get_value_from_site_matrix_entry(
    value: &String,
    site: &SiteEntry,
    key_match: SiteKey,
    key_return: SiteKey,
) -> (r: Option<String>)
    ensures
        match r {
            Some(u) => entry_value(*site, value@, key_match, key_return) == Some(u@),
            None => entry_value(*site, value@, key_match, key_return) is None,
        },
{
    if site.is_closed || site.is_private {
        return None;
    }
    let found = match key_match {
        SiteKey::Dbname => &site.dbname,
        SiteKey::Url => &site.url,
    };
    match found {
        Some(found) => {
            if *found == *value {
                match key_return {
                    SiteKey::Dbname => match &site.dbname {
                        Some(d) => Some(d.clone()),
                        None => None,
                    },
                    SiteKey::Url => match &site.url {
                        Some(u) => Some(u.clone()),
                        None => None,
                    },
                }
            } else {
                None
            }
        },
        None => None,
    }
}

/// Reads a site entry's URL when its database name is `wiki`.
pub fn get_url_for_wiki_from_site(wiki: &String, site: &SiteEntry) -> (r: Option<String>)
    ensures
        match r {
            Some(u) => entry_value(*site, wiki@, SiteKey::Dbname, SiteKey::Url) == Some(u@),
            None => entry_value(*site, wiki@, SiteKey::Dbname, SiteKey::Url) is None,
        },
{
    get_value_from_site_matrix_entry(wiki, site, SiteKey::Dbname, SiteKey::Url)
}

/// Resolves the server URL for `wiki` against the site matrix entries, in
/// their given order; nothing when no open entry carries that database name.
pub fn get_server_url_for_wiki(wiki: &String, sites: &Vec<SiteEntry>) -> (r: Option<String>)
    ensures
        match r {
            Some(u) => server_url_spec(sites@, wiki@) == Some(u@),
            None => server_url_spec(sites@, wiki@) is None,
        },
{
    if normalized_eq(wiki.as_str(), "be-taraskwiki") || normalized_eq(
        wiki.as_str(),
        "be-x-oldwiki",
    ) {
        let url = "https://be-tarask.wikipedia.org".to_owned();
        return Some(url);
    }
    let mut i: usize = 0;
    while i < sites.len()
        invariant
            i <= sites@.len(),
            first_site_url(sites@, wiki@, 0) == first_site_url(sites@, wiki@, i as int),
            !(normalized(wiki@) == "be-taraskwiki"@ || normalized(wiki@) == "be-x-oldwiki"@),
        decreases sites@.len() - i,
    {
        match get_url_for_wiki_from_site(wiki, &sites[i]) {
            Some(u) => {
                return Some(u);
            },
            None => {},
        }
        i += 1;
    }
    None
}

/// Whether `w`, underscores read as hyphens, spells `lit`.
fn normalized_eq(w: &str, lit: &str) -> (b: bool)
    ensures
        b == (normalized(w@) == lit@),
{
    let n = w.unicode_len();
    if n != lit.unicode_len() {
        return false;
    }
    let mut i: usize = 0;
    while i < n
        invariant
            n == w@.len(),
            lit@.len() == n,
            i <= n,
            forall|k: int| 0 <= k < i ==> normalized(w@)[k] == lit@[k],
        decreases n - i,
    {
        let c = w.get_char(i);
        let c2: char = if c == '_' {
            '-'
        } else {
            c
        };
        if c2 != lit.get_char(i) {
            proof {
                assert(normalized(w@)[i as int] != lit@[i as int]);
            }
            return false;
        }
        i += 1;
    }
    proof {
        assert(normalized(w@) =~= lit@);
    }
    true
}

} // verus!
