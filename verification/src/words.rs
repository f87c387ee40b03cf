//! The word resolver: filters candidate words fetched from the word-lookup
//! service into an adjective pool and a noun pool, and picks one word of
//! each at random.

use vstd::prelude::*;
use vstd::string::StrSliceExecFns;

verus! {

/// One candidate retrieved from the word-lookup service: a word together
/// with its grammatical tags.
#[derive(Debug)]
pub struct CandidateWord {
    pub word: String,
    pub tags: Vec<String>,
}

impl View for CandidateWord {
    type V = (Seq<char>, Seq<Seq<char>>);

    open spec fn view(&self) -> Self::V {
        (self.word@, self.tags.deep_view())
    }
}

impl DeepView for CandidateWord {
    type V = (Seq<char>, Seq<Seq<char>>);

    open spec fn deep_view(&self) -> Self::V {
        self.view()
    }
}

/// Why a resolution attempt failed.
#[derive(Clone, Copy, Debug, PartialEq, Eq, Structural)]
pub enum ResolutionError {
    /// The outbound request could not be completed.
    NetworkError,
    /// The response body could not be decoded into candidate words.
    ParseError,
    /// No candidate satisfied the filter in one or both categories.
    NoEligibleWords,
}

/// What one outbound query to the word service produced: a response body,
/// or a transport failure.
#[derive(Debug)]
pub enum FetchOutcome {
    Response(String),
    TransportFailure,
}

/// A word belongs to the pool of grammatical category `tag` when it carries
/// that tag, its length lies within the configured bounds, and it starts
/// with the query letter.
pub open spec fn eligible(word: Seq<char>, tags: Seq<Seq<char>>, letter: char, tag: Seq<char>) -> bool {
    &&& tags.contains(tag)
    &&& crate::MIN_WORD_LEN as nat <= word.len()
    &&& word.len() <= crate::MAX_WORD_LEN as nat
    &&& word.len() > 0 && word[0] == letter
}

/// The words of `entries` that are eligible for `tag`, in their original
/// order.
pub open spec fn pool_of(
    entries: Seq<(Seq<char>, Seq<Seq<char>>)>,
    letter: char,
    tag: Seq<char>,
) -> Seq<Seq<char>>
    decreases entries.len(),
{
    if entries.len() == 0 {
        Seq::empty()
    } else {
        let rest = pool_of(entries.drop_last(), letter, tag);
        if eligible(entries.last().0, entries.last().1, letter, tag) {
            rest.push(entries.last().0)
        } else {
            rest
        }
    }
}

/// Filtering correctness: the pool for `tag` holds exactly the words of the
/// entries that carry `tag`, have a length within bounds, and start with
/// the query letter.
pub proof fn lemma_pool_exact(entries: Seq<(Seq<char>, Seq<Seq<char>>)>, letter: char, tag: Seq<char>)
    ensures
        forall|w: Seq<char>|
            #[trigger] pool_of(entries, letter, tag).contains(w) <==> (exists|i: int|
                0 <= i < entries.len() && (#[trigger] entries[i]).0 == w && eligible(
                    entries[i].0,
                    entries[i].1,
                    letter,
                    tag,
                )),
    decreases entries.len(),
{
    if entries.len() == 0 {
    } else {
        let prefix = entries.drop_last();
        lemma_pool_exact(prefix, letter, tag);
        let pool = pool_of(entries, letter, tag);
        let sub = pool_of(prefix, letter, tag);
        assert forall|w: Seq<char>| #[trigger] pool.contains(w) implies (exists|i: int|
            0 <= i < entries.len() && (#[trigger] entries[i]).0 == w && eligible(
                entries[i].0,
                entries[i].1,
                letter,
                tag,
            )) by {
            if sub.contains(w) {
                let i = choose|i: int|
                    0 <= i < prefix.len() && (#[trigger] prefix[i]).0 == w && eligible(
                        prefix[i].0,
                        prefix[i].1,
                        letter,
                        tag,
                    );
                assert(entries[i] == prefix[i]);
            } else {
                assert(entries[entries.len() - 1].0 == w);
            }
        }
        assert forall|w: Seq<char>|
            (exists|i: int|
                0 <= i < entries.len() && (#[trigger] entries[i]).0 == w && eligible(
                    entries[i].0,
                    entries[i].1,
                    letter,
                    tag,
                )) implies #[trigger] pool.contains(w) by {
            let i = choose|i: int|
                0 <= i < entries.len() && (#[trigger] entries[i]).0 == w && eligible(
                    entries[i].0,
                    entries[i].1,
                    letter,
                    tag,
                );
            if i < entries.len() - 1 {
                assert(prefix[i] == entries[i]);
                assert(sub.contains(w));
                if eligible(entries.last().0, entries.last().1, letter, tag) {
                    let j = choose|j: int| 0 <= j < sub.len() && sub[j] == w;
                    assert(pool[j] == w);
                }
            } else {
                assert(eligible(entries.last().0, entries.last().1, letter, tag));
                assert(pool.last() == w);
            }
        }
    }
}

/// Whether `tags` holds a tag equal to `tag`.
fn has_tag(tags: &Vec<String>, tag: &String) -> (b: bool)
    ensures
        b == tags.deep_view().contains(tag@),
{
    let mut j: usize = 0;
    while j < tags.len()
        invariant
            j <= tags.len(),
            forall|k: int| 0 <= k < j ==> tags.deep_view()[k] != tag@,
        decreases tags.len() - j,
    {
        if tags[j].eq(tag) {
            assert(tags.deep_view()[j as int] == tag@);
            return true;
        }
        j += 1;
    }
    false
}

/// Whether `cand` is eligible for the pool of category `tag`.
fn is_eligible(cand: &CandidateWord, letter: char, tag: &String) -> (b: bool)
    ensures
        b == eligible(cand.word@, cand.tags.deep_view(), letter, tag@),
{
    let len = cand.word.as_str().unicode_len();
    if len < crate::MIN_WORD_LEN || len > crate::MAX_WORD_LEN {
        return false;
    }
    if cand.word.as_str().get_char(0) != letter {
        return false;
    }
    has_tag(&cand.tags, tag)
}

/// Collects the words of `words` that carry `tag`, have a length within the
/// configured bounds, and start with `letter`, in their original order.
pub fn filter_words(words: &Vec<CandidateWord>, letter: char, tag: &str) -> (pool: Vec<String>)
    ensures
        pool.deep_view() == pool_of(words.deep_view(), letter, tag@),
{
    let tag_owned: String = tag.to_owned();
    let mut pool: Vec<String> = Vec::new();
    let mut i: usize = 0;
    while i < words.len()
        invariant
            i <= words.len(),
            tag_owned@ == tag@,
            pool.deep_view() =~= pool_of(words.deep_view().take(i as int), letter, tag@),
        decreases words.len() - i,
    {
        let ghost prefix = words.deep_view().take(i as int);
        let ghost next = words.deep_view().take(i as int + 1);
        proof {
            assert(next.drop_last() =~= prefix);
            assert(next.last() == words.deep_view()[i as int]);
        }
        let cand = &words[i];
        if is_eligible(cand, letter, &tag_owned) {
            let ghost before = pool.deep_view();
            pool.push(cand.word.clone());
            proof {
                assert(pool.deep_view() =~= before.push(cand.word@));
            }
        }
        i += 1;
    }
    proof {
        assert(words.deep_view().take(i as int) =~= words.deep_view());
    }
    pool
}

/// Relies on rand::thread_rng and rand::Rng::gen_range: returns some value
/// drawn from `0..n`; nothing is assumed about which one.
#[verifier::external_body]
pub(crate) fn random_index(n: usize) -> (i: usize)
    requires
        n > 0,
    ensures
        i < n,
{
    rand::Rng::gen_range(&mut rand::thread_rng(), 0..n)
}

/// The tag that marks a candidate as an adjective.
pub open spec fn adjective_tag() -> Seq<char> {
    "adjective"@
}

/// The tag that marks a candidate as a noun.
pub open spec fn noun_tag() -> Seq<char> {
    "noun"@
}

/// What the word-service response body decodes to: `None` when the body is
/// not a JSON array of records, otherwise one (word, tags) pair per record.
pub uninterp spec fn decoded_words(body: Seq<char>) -> Option<Seq<(Seq<char>, Seq<Seq<char>>)>>;

/// Relies on serde_json::from_str to decode a JSON array, and on
/// serde_json::Value's indexing, as_str and as_array accessors to read
/// each record's "word" string and "tags" strings; a record without them
/// yields an empty word or tag list, which no pool ever admits. The
/// outcome is a function of the body text alone.
#[verifier::external_body]
fn decode_body(body: &str) -> (r: Option<Vec<CandidateWord>>)
    ensures
        r matches Some(v) ==> decoded_words(body@) == Some(v.deep_view()),
        r is None ==> decoded_words(body@) is None,
{
    match serde_json::from_str::<Vec<serde_json::Value>>(body) {
        Ok(records) => Some(records.iter().map(|r| CandidateWord {
            word: r["word"].as_str().unwrap_or("").to_string(),
            tags: match r["tags"].as_array() {
                Some(tags) => tags.iter().map(|t| t.as_str().unwrap_or("").to_string()).collect(),
                None => Vec::new(),
            },
        }).collect()),
        Err(_) => None,
    }
}

/// The view of a resolver result: the pair of word views on success.
pub open spec fn result_view(r: Result<(String, String), ResolutionError>) -> Result<
    (Seq<char>, Seq<char>),
    ResolutionError,
> {
    match r {
        Ok(pair) => Ok((pair.0@, pair.1@)),
        Err(e) => Err(e),
    }
}

/// What `resolve` returns for a query letter and a fetch outcome: a
/// transport failure yields the network error; a body that does not decode
/// yields the parse error; a decoded body yields one adjective and one
/// noun out of the two pools when both are populated, and the no-eligible-
/// words error otherwise.
pub open spec fn resolution_of(
    letter: char,
    outcome: FetchOutcome,
    r: Result<(Seq<char>, Seq<char>), ResolutionError>,
) -> bool {
    match outcome {
        FetchOutcome::TransportFailure => r == Err::<(Seq<char>, Seq<char>), ResolutionError>(
            ResolutionError::NetworkError,
        ),
        FetchOutcome::Response(body) => match decoded_words(body@) {
            None => r == Err::<(Seq<char>, Seq<char>), ResolutionError>(
                ResolutionError::ParseError,
            ),
            Some(entries) => {
                let adjectives = pool_of(entries, letter, adjective_tag());
                let nouns = pool_of(entries, letter, noun_tag());
                if adjectives.len() > 0 && nouns.len() > 0 {
                    r matches Ok(pair) && adjectives.contains(pair.0) && nouns.contains(pair.1)
                } else {
                    r == Err::<(Seq<char>, Seq<char>), ResolutionError>(
                        ResolutionError::NoEligibleWords,
                    )
                }
            },
        },
    }
}

/// Word resolver: from the outcome of one query for words starting with
/// `letter`, builds the adjective and the noun pool and picks one word of
/// each at random. Succeeds exactly when the body decodes and both pools
/// are populated.
pub fn resolve(letter: char, outcome: &FetchOutcome) -> (r: Result<
    (String, String),
    ResolutionError,
>)
    ensures
        resolution_of(letter, *outcome, result_view(r)),
{
    match outcome {
        FetchOutcome::TransportFailure => Err(ResolutionError::NetworkError),
        FetchOutcome::Response(body) => match decode_body(body.as_str()) {
            None => Err(ResolutionError::ParseError),
            Some(entries) => {
                let adjectives = filter_words(&entries, letter, "adjective");
                let nouns = filter_words(&entries, letter, "noun");
                match (pick_word(&adjectives), pick_word(&nouns)) {
                    (Some(adjective), Some(noun)) => Ok((adjective, noun)),
                    _ => Err(ResolutionError::NoEligibleWords),
                }
            },
        },
    }
}

/// Picks one word of `pool` at random; `None` exactly when the pool is
/// empty.
pub fn pick_word(pool: &Vec<String>) -> (r: Option<String>)
    ensures
        r is Some <==> pool@.len() > 0,
        r matches Some(w) ==> pool.deep_view().contains(w@),
{
    if pool.len() == 0 {
        None
    } else {
        let i = random_index(pool.len());
        let w = pool[i].clone();
        proof {
            assert(pool.deep_view()[i as int] == w@);
        }
        Some(w)
    }
}

} // verus!
