use vstd::prelude::*;

use url::Url;

use crate::error::Error;

verus! {

/// One event of reading a repository configuration document, as the logic needs it.
#[derive(Debug, Clone)]
pub enum ConfigEvent {
    /// An `add` element (empty or start tag), with its `value` attribute if it has one.
    Add { value: Option<String> },
    /// The end tag of `packageSources`.
    EndPackageSources,
    /// The end of the document.
    Eof,
    /// Any other event.
    Other,
}

/// Whether `url::Url::parse` accepts `s` as an absolute address.
pub uninterp spec fn url_parses(s: Seq<char>) -> bool;

/// Relies on url::Url::parse: whether the text is a valid absolute address.
#[verifier::external_body]
fn parses_as_url(s: &str) -> (r: bool)
    ensures
        r == url_parses(s@),
{
    Url::parse(s).is_ok()
}

/// An `add` element without the address it should give.
pub open spec fn lacks_value(e: ConfigEvent) -> bool {
    e matches ConfigEvent::Add { value: None }
}

/// The event closes the list of sources.
pub open spec fn ends_sources(e: ConfigEvent) -> bool {
    e is EndPackageSources || e is Eof
}

/// `k` is where reading sources stops: the first closing event, or the end.
pub open spec fn is_sources_end(evs: Seq<ConfigEvent>, k: int) -> bool {
    &&& 0 <= k <= evs.len()
    &&& forall|i: int| 0 <= i < k ==> !ends_sources(#[trigger] evs[i])
    &&& (k == evs.len() || ends_sources(evs[k]))
}

/// The distinct addresses that the `add` elements among `evs` give, in the order of
/// their first occurrence; those that do not parse are left out.
pub open spec fn added_urls(evs: Seq<ConfigEvent>) -> Seq<Seq<char>>
    decreases evs.len(),
{
    if evs.len() == 0 {
        seq![]
    } else {
        let before = added_urls(evs.drop_last());
        match evs.last() {
            ConfigEvent::Add { value: Some(v) } => if url_parses(v@) && !before.contains(v@) {
                before.push(v@)
            } else {
                before
            },
            _ => before,
        }
    }
}

/// The text views of a list of strings.
pub open spec fn texts(v: Seq<String>) -> Seq<Seq<char>> {
    v.map_values(|u: String| u@)
}

/// Whether `urls` already holds `u`.
fn holds(urls: &Vec<String>, u: &String) -> (r: bool)
    ensures
        r == texts(urls@).contains(u@),
{
    let mut i: usize = 0;
    while i < urls.len()
        invariant
            i <= urls@.len(),
            forall|j: int| 0 <= j < i ==> urls@[j]@ != u@,
        decreases urls@.len() - i,
    {
        if urls[i] == *u {
            assert(texts(urls@)[i as int] == u@);
            return true;
        }
        i = i + 1;
    }
    assert(!texts(urls@).contains(u@));
    false
}

/// The repository addresses a configuration lists up to the end of its package
/// sources, each once, in the order of first occurrence: one source is made per
/// distinct endpoint. A listed source without a `value` attribute fails the whole
/// configuration; one whose address does not parse is left out.
pub fn source_urls(events: &Vec<ConfigEvent>) -> (r: Result<Vec<String>, Error>)
    ensures
        forall|k: int|
            is_sources_end(events@, k) ==> match r {
                Ok(urls) => {
                    &&& texts(urls@) == added_urls(events@.subrange(0, k))
                    &&& texts(urls@).no_duplicates()
                    &&& forall|i: int| 0 <= i < k ==> !lacks_value(#[trigger] events@[i])
                },
                Err(e) => e is MalformedConfig && exists|i: int|
                    0 <= i < k && lacks_value(#[trigger] events@[i]),
            },
{
    let mut out: Vec<String> = Vec::new();
    let mut i: usize = 0;
    while i < events.len()
        invariant
            i <= events@.len(),
            forall|j: int| 0 <= j < i ==> !ends_sources(#[trigger] events@[j]),
            forall|j: int| 0 <= j < i ==> !lacks_value(#[trigger] events@[j]),
            texts(out@) == added_urls(events@.subrange(0, i as int)),
            texts(out@).no_duplicates(),
        decreases events@.len() - i,
    {
        let ghost before = out@;
        match &events[i] {
            ConfigEvent::Add { value: Some(v) } => {
                if parses_as_url(v.as_str()) && !holds(&out, v) {
                    out.push(v.clone());
                    assert(texts(out@) == texts(before).push(v@));
                }
            },
            ConfigEvent::Add { value: None } => {
                return Err(Error::MalformedConfig);
            },
            ConfigEvent::EndPackageSources | ConfigEvent::Eof => {
                assert(is_sources_end(events@, i as int));
                return Ok(out);
            },
            ConfigEvent::Other => {},
        }
        assert(events@.subrange(0, i + 1).drop_last() == events@.subrange(0, i as int));
        assert(texts(out@) == added_urls(events@.subrange(0, i + 1)));
        i = i + 1;
    }
    assert(is_sources_end(events@, i as int));
    Ok(out)
}

} // verus!
