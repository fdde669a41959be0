//! The weather model: the tag taxonomy, the condition parser and the
//! weather snapshot.
//!
//! A `WeatherTag` is one semantic weather category out of a closed set of
//! seven.  Raw provider conditions are mapped to tag sets in two ways: by
//! matching tag synonyms as case-insensitive substrings of the condition
//! text, and by looking a numeric condition code up in the hand-curated code
//! lists that each tag owns.  Code-based parsing is the canonical one, since
//! provider texts overlap; both are exposed.  A `Weather` value bundles a tag
//! set with a day/night flag, where `None` means the value applies at any
//! time of day.

use vstd::prelude::*;

use crate::Error;
use crate::text::{ci_contains, str_contains_ignore_case};

verus! {

/// One semantic weather category.  The categories are not mutually
/// exclusive: a condition may carry several of them at once.
#[derive(Clone, Copy, Debug, PartialEq, Eq, Structural)]
pub enum WeatherTag {
    Sun,
    PartCloud,
    Cloud,
    Rain,
    Storm,
    Fog,
    Snow,
}

/// Every tag, each exactly once, in the order the tag editor presents them.
pub open spec fn all_tags() -> Seq<WeatherTag> {
    seq![
        WeatherTag::Sun,
        WeatherTag::PartCloud,
        WeatherTag::Cloud,
        WeatherTag::Rain,
        WeatherTag::Storm,
        WeatherTag::Fog,
        WeatherTag::Snow,
    ]
}

/// `all_tags` really enumerates the whole taxonomy.
pub proof fn lemma_all_tags_complete(t: WeatherTag)
    ensures
        all_tags().contains(t),
{
    match t {
        WeatherTag::Sun => assert(all_tags()[0] == t),
        WeatherTag::PartCloud => assert(all_tags()[1] == t),
        WeatherTag::Cloud => assert(all_tags()[2] == t),
        WeatherTag::Rain => assert(all_tags()[3] == t),
        WeatherTag::Storm => assert(all_tags()[4] == t),
        WeatherTag::Fog => assert(all_tags()[5] == t),
        WeatherTag::Snow => assert(all_tags()[6] == t),
    }
}

/// `all_tags` lists no tag twice.
pub proof fn lemma_all_tags_distinct()
    ensures
        all_tags().no_duplicates(),
{
}

/// The human-readable aliases of each tag.  They render the tag in menus and
/// match provider text in the legacy substring parser.
pub open spec fn spec_synonyms(t: WeatherTag) -> Seq<Seq<char>> {
    match t {
        WeatherTag::Sun => seq!["Sun"@, "Clear"@],
        WeatherTag::PartCloud => seq!["Partly Cloudy"@],
        WeatherTag::Cloud => seq!["Cloudy"@, "Overcast"@],
        WeatherTag::Rain => seq!["Rain"@, "Drizzle"@],
        WeatherTag::Storm => seq!["Stormy"@, "Thunder"@],
        WeatherTag::Fog => seq!["Mist"@, "Fog"@],
        WeatherTag::Snow => seq!["Snow"@, "Blizzard"@],
    }
}

/// The provider condition codes each tag stands for.  The mapping is
/// many-to-many: a sleet code carries both rain and snow, and a tag may own
/// several codes.
pub open spec fn spec_matching_codes(t: WeatherTag) -> Seq<u32> {
    match t {
        WeatherTag::Sun => seq![0u32],
        WeatherTag::PartCloud => seq![1u32],
        WeatherTag::Cloud => seq![2u32, 3u32],
        WeatherTag::Rain => seq![6u32, 9u32],
        WeatherTag::Storm => seq![7u32],
        WeatherTag::Fog => seq![4u32, 5u32],
        WeatherTag::Snow => seq![8u32, 9u32],
    }
}

/// Some synonym of `t` occurs in the condition text, up to ASCII case.
pub open spec fn tag_matches_text(t: WeatherTag, text: Seq<char>) -> bool {
    exists|k: int| 0 <= k < spec_synonyms(t).len() && ci_contains(text, spec_synonyms(t)[k])
}

/// The tag owns the given provider condition code.
pub open spec fn tag_matches_code(t: WeatherTag, code: u32) -> bool {
    spec_matching_codes(t).contains(code)
}

/// The tags a condition text parses to.
pub open spec fn text_tag_set(text: Seq<char>) -> Set<WeatherTag> {
    Set::new(|t: WeatherTag| tag_matches_text(t, text))
}

/// The tags a condition code parses to.
pub open spec fn code_tag_set(code: u32) -> Set<WeatherTag> {
    Set::new(|t: WeatherTag| tag_matches_code(t, code))
}

impl WeatherTag {
    /// The whole taxonomy as a vector, for iteration.
    pub fn all() -> (r: Vec<WeatherTag>)
        ensures
            r@ == all_tags(),
    {
        let r = vec![
            WeatherTag::Sun,
            WeatherTag::PartCloud,
            WeatherTag::Cloud,
            WeatherTag::Rain,
            WeatherTag::Storm,
            WeatherTag::Fog,
            WeatherTag::Snow,
        ];
        proof {
            assert(r@ =~= all_tags());
        }
        r
    }

    /// The display synonyms of this tag.
    pub fn synonyms(&self) -> (r: Vec<String>)
        ensures
            r.deep_view() == spec_synonyms(*self),
    {
        let mut r: Vec<String> = Vec::new();
        match self {
            WeatherTag::Sun => {
                r.push(String::from_str("Sun"));
                r.push(String::from_str("Clear"));
            },
            WeatherTag::PartCloud => {
                r.push(String::from_str("Partly Cloudy"));
            },
            WeatherTag::Cloud => {
                r.push(String::from_str("Cloudy"));
                r.push(String::from_str("Overcast"));
            },
            WeatherTag::Rain => {
                r.push(String::from_str("Rain"));
                r.push(String::from_str("Drizzle"));
            },
            WeatherTag::Storm => {
                r.push(String::from_str("Stormy"));
                r.push(String::from_str("Thunder"));
            },
            WeatherTag::Fog => {
                r.push(String::from_str("Mist"));
                r.push(String::from_str("Fog"));
            },
            WeatherTag::Snow => {
                r.push(String::from_str("Snow"));
                r.push(String::from_str("Blizzard"));
            },
        }
        proof {
            assert(r.deep_view() =~~= spec_synonyms(*self));
        }
        r
    }

    /// The provider condition codes this tag stands for.
    pub fn matching_codes(&self) -> (r: Vec<u32>)
        ensures
            r@ == spec_matching_codes(*self),
    {
        let r = match self {
            WeatherTag::Sun => vec![0u32],
            WeatherTag::PartCloud => vec![1u32],
            WeatherTag::Cloud => vec![2u32, 3u32],
            WeatherTag::Rain => vec![6u32, 9u32],
            WeatherTag::Storm => vec![7u32],
            WeatherTag::Fog => vec![4u32, 5u32],
            WeatherTag::Snow => vec![8u32, 9u32],
        };
        proof {
            assert(r@ =~= spec_matching_codes(*self));
        }
        r
    }

    /// Does any synonym of this tag occur in the condition text, up to ASCII
    /// case?
    pub fn matches_text(&self, text: &str) -> (r: bool)
        ensures
            r == tag_matches_text(*self, text@),
    {
        let syns = self.synonyms();
        let mut k: usize = 0;
        while k < syns.len()
            invariant
                syns.deep_view() == spec_synonyms(*self),
                0 <= k <= syns.len(),
                forall|m: int| 0 <= m < k ==> !ci_contains(text@, spec_synonyms(*self)[m]),
            decreases syns.len() - k,
        {
            proof {
                assert(syns[k as int]@ == syns.deep_view()[k as int]);
            }
            if str_contains_ignore_case(text, syns[k].as_str()) {
                return true;
            }
            k += 1;
        }
        false
    }

    /// Does this tag own the given provider condition code?
    pub fn matches_code(&self, code: u32) -> (r: bool)
        ensures
            r == tag_matches_code(*self, code),
    {
        let codes = self.matching_codes();
        let mut k: usize = 0;
        while k < codes.len()
            invariant
                codes@ == spec_matching_codes(*self),
                0 <= k <= codes.len(),
                forall|m: int| 0 <= m < k ==> codes@[m] != code,
            decreases codes.len() - k,
        {
            if codes[k] == code {
                return true;
            }
            k += 1;
        }
        false
    }
}

/// Taking one more element of a sequence extends the set of its elements by
/// that element.
proof fn lemma_take_step<A>(s: Seq<A>, i: int)
    requires
        0 <= i < s.len(),
    ensures
        s.take(i + 1).to_set() =~= s.take(i).to_set().insert(s[i]),
{
    assert(s.take(i + 1) =~= s.take(i).push(s[i]));
    s.take(i).lemma_push_to_set_commute(s[i]);
}

/// Intersecting with the set of all tags changes nothing.
proof fn lemma_intersect_all_tags(s: Set<WeatherTag>)
    ensures
        s.intersect(all_tags().to_set()) =~= s,
{
    assert forall|t: WeatherTag| s.contains(t) implies all_tags().to_set().contains(t) by {
        lemma_all_tags_complete(t);
    }
}

/// A set of weather tags, stored without duplicates.
///
/// Its abstract value is the mathematical set of tags it holds.
#[verifier::ext_equal]
#[derive(Debug)]
pub struct TagSet {
    tags: Vec<WeatherTag>,
}

impl View for TagSet {
    type V = Set<WeatherTag>;

    closed spec fn view(&self) -> Set<WeatherTag> {
        self.tags@.to_set()
    }
}

impl TagSet {
    /// The set holding no tags.
    pub fn empty() -> (r: TagSet)
        ensures
            r@ == Set::<WeatherTag>::empty(),
    {
        let r = TagSet { tags: Vec::new() };
        proof {
            assert(r@ =~= Set::<WeatherTag>::empty());
        }
        r
    }

    /// Does the set hold the given tag?
    pub fn contains(&self, t: WeatherTag) -> (r: bool)
        ensures
            r == self@.contains(t),
    {
        let mut i: usize = 0;
        while i < self.tags.len()
            invariant
                0 <= i <= self.tags.len(),
                forall|j: int| 0 <= j < i ==> self.tags@[j] != t,
            decreases self.tags.len() - i,
        {
            if self.tags[i] == t {
                proof {
                    assert(self.tags@.contains(t));
                }
                return true;
            }
            i += 1;
        }
        proof {
            assert(!self.tags@.contains(t));
        }
        false
    }

    /// Adds a tag; holding it already changes nothing.
    pub fn insert(&mut self, t: WeatherTag)
        ensures
            final(self)@ == old(self)@.insert(t),
    {
        let present = self.contains(t);
        if !present {
            self.tags.push(t);
            proof {
                old(self).tags@.lemma_push_to_set_commute(t);
            }
        } else {
            proof {
                assert(old(self)@.insert(t) =~= old(self)@);
            }
        }
    }

    /// Collects a list of tags into a set.
    pub fn from_tags(list: &Vec<WeatherTag>) -> (r: TagSet)
        ensures
            r@ == list@.to_set(),
    {
        let mut r = TagSet::empty();
        let mut i: usize = 0;
        while i < list.len()
            invariant
                0 <= i <= list.len(),
                r@ == list@.take(i as int).to_set(),
            decreases list.len() - i,
        {
            r.insert(list[i]);
            proof {
                lemma_take_step(list@, i as int);
            }
            i += 1;
        }
        proof {
            assert(list@.take(list@.len() as int) =~= list@);
        }
        r
    }

    /// Does the set hold no tag at all?
    pub fn is_empty(&self) -> (r: bool)
        ensures
            r == self@.is_empty(),
    {
        if self.tags.len() == 0 {
            proof {
                assert(self@ =~= Set::<WeatherTag>::empty());
            }
            true
        } else {
            proof {
                assert(self.tags@.contains(self.tags@[0]));
                assert(self@.contains(self.tags@[0]));
            }
            false
        }
    }

    /// The number of tags this set shares with `other`.
    pub fn count_common(&self, other: &TagSet) -> (r: usize)
        ensures
            r == self@.intersect(other@).len(),
    {
        let all = WeatherTag::all();
        let mut count: usize = 0;
        let mut i: usize = 0;
        proof {
            assert(all_tags().take(0).to_set() =~= Set::<WeatherTag>::empty());
            assert(self@.intersect(other@).intersect(Set::<WeatherTag>::empty())
                =~= Set::<WeatherTag>::empty());
            vstd::set_lib::lemma_set_empty_equivalency_len(
                self@.intersect(other@).intersect(all_tags().take(0).to_set()),
            );
        }
        while i < all.len()
            invariant
                all@ == all_tags(),
                0 <= i <= all@.len(),
                count <= i,
                count == self@.intersect(other@).intersect(
                    all_tags().take(i as int).to_set(),
                ).len(),
            decreases all@.len() - i,
        {
            let t = all[i];
            let in_both = self.contains(t) && other.contains(t);
            proof {
                vstd::seq_lib::seq_to_set_is_finite(all_tags().take(i as int));
                lemma_take_step(all_tags(), i as int);
                let shared = self@.intersect(other@);
                let before = shared.intersect(all_tags().take(i as int).to_set());
                let after = shared.intersect(all_tags().take(i as int + 1).to_set());
                lemma_all_tags_distinct();
                assert(!all_tags().take(i as int).contains(t));
                assert(!before.contains(t));
                if in_both {
                    assert(after =~= before.insert(t));
                } else {
                    assert(after =~= before);
                }
            }
            if in_both {
                count += 1;
            }
            i += 1;
        }
        proof {
            assert(all_tags().take(all_tags().len() as int) =~= all_tags());
            lemma_intersect_all_tags(self@.intersect(other@));
        }
        count
    }
}

impl Clone for TagSet {
    /// Clones the set; the copy holds exactly the same tags.
    fn clone(&self) -> (r: Self)
        ensures
            r@ == self@,
    {
        let mut v: Vec<WeatherTag> = Vec::new();
        let mut i: usize = 0;
        while i < self.tags.len()
            invariant
                0 <= i <= self.tags.len(),
                v@ == self.tags@.take(i as int),
            decreases self.tags.len() - i,
        {
            v.push(self.tags[i]);
            proof {
                assert(self.tags@.take(i as int + 1) =~= self.tags@.take(i as int).push(
                    self.tags@[i as int],
                ));
            }
            i += 1;
        }
        let r = TagSet { tags: v };
        proof {
            assert(self.tags@.take(self.tags@.len() as int) =~= self.tags@);
            assert(r.tags@ =~= self.tags@);
            assert(r@ =~= self@);
        }
        r
    }
}

/// The abstract value of a weather snapshot: which tags it carries and
/// whether it belongs to day, night, or both (`None`).
#[verifier::ext_equal]
pub struct WeatherView {
    pub tags: Set<WeatherTag>,
    pub is_day: Option<bool>,
}

/// A weather snapshot: the tags a condition (or a wallpaper) carries, and a
/// day/night flag.  `is_day == None` means the value applies to both day and
/// night; it is used for manually tagged wallpapers that are time
/// independent.
#[derive(Debug)]
pub struct Weather {
    tags: TagSet,
    is_day: Option<bool>,
}

impl View for Weather {
    type V = WeatherView;

    closed spec fn view(&self) -> WeatherView {
        WeatherView { tags: self.tags@, is_day: self.is_day }
    }
}

impl Weather {
    /// Bundles a tag set and a day/night flag into a snapshot.
    pub fn new(tags: TagSet, is_day: Option<bool>) -> (r: Weather)
        ensures
            r@.tags == tags@,
            r@.is_day == is_day,
    {
        Weather { tags, is_day }
    }

    /// The day/night flag: `Some(true)` for day, `Some(false)` for night,
    /// `None` for both.
    pub fn is_day(&self) -> (r: Option<bool>)
        ensures
            r == self@.is_day,
    {
        self.is_day
    }

    /// Replaces the day/night flag.
    pub fn set_is_day(&mut self, is_day: Option<bool>)
        ensures
            final(self)@.is_day == is_day,
            final(self)@.tags == old(self)@.tags,
    {
        self.is_day = is_day;
    }

    /// The tags of this snapshot.
    pub fn tags(&self) -> (r: &TagSet)
        ensures
            r@ == self@.tags,
    {
        &self.tags
    }

    /// Replaces the tags.
    pub fn set_tags(&mut self, tags: TagSet)
        ensures
            final(self)@.tags == tags@,
            final(self)@.is_day == old(self)@.is_day,
    {
        self.tags = tags;
    }
}

impl Default for Weather {
    /// A freshly discovered wallpaper depicts no particular weather and is
    /// treated as a day image.
    fn default() -> (r: Weather)
        ensures
            r@.tags == Set::<WeatherTag>::empty(),
            r@.is_day == Some(true),
    {
        Weather { tags: TagSet::empty(), is_day: Some(true) }
    }
}

impl Clone for Weather {
    /// Clones the snapshot; the copy has the same abstract value.
    fn clone(&self) -> (r: Self)
        ensures
            r@ == self@,
    {
        let r = Weather { tags: self.tags.clone(), is_day: self.is_day };
        proof {
            assert(r@ =~= self@);
        }
        r
    }
}

impl WeatherTag {
    /// Parses a raw condition text: a tag applies when one of its synonyms
    /// occurs in the text, up to ASCII case.  When no tag applies at all the
    /// condition is unknown and parsing fails with `ConditionLookupFail`
    /// rather than handing back an empty set, which would make every
    /// wallpaper look fully unsuitable.
    pub fn parse(cond_text: &String) -> (r: Result<TagSet, Error>)
        ensures
            match r {
                Ok(ts) => ts@ == text_tag_set(cond_text@) && !text_tag_set(cond_text@).is_empty(),
                Err(e) => e == Error::ConditionLookupFail && text_tag_set(cond_text@).is_empty(),
            },
    {
        let all = WeatherTag::all();
        let mut ts = TagSet::empty();
        let mut i: usize = 0;
        proof {
            assert(all_tags().take(0).to_set() =~= Set::<WeatherTag>::empty());
            assert(text_tag_set(cond_text@).intersect(Set::<WeatherTag>::empty())
                =~= Set::<WeatherTag>::empty());
        }
        while i < all.len()
            invariant
                all@ == all_tags(),
                0 <= i <= all@.len(),
                ts@ == text_tag_set(cond_text@).intersect(all_tags().take(i as int).to_set()),
            decreases all@.len() - i,
        {
            let t = all[i];
            proof {
                lemma_take_step(all_tags(), i as int);
            }
            if t.matches_text(cond_text.as_str()) {
                ts.insert(t);
                proof {
                    assert(text_tag_set(cond_text@).intersect(
                        all_tags().take(i as int + 1).to_set(),
                    ) =~= ts@);
                }
            } else {
                proof {
                    assert(text_tag_set(cond_text@).intersect(
                        all_tags().take(i as int + 1).to_set(),
                    ) =~= ts@);
                }
            }
            i += 1;
        }
        proof {
            assert(all_tags().take(all_tags().len() as int) =~= all_tags());
            lemma_intersect_all_tags(text_tag_set(cond_text@));
            assert(ts@ == text_tag_set(cond_text@));
        }
        if ts.is_empty() {
            Err(Error::ConditionLookupFail)
        } else {
            Ok(ts)
        }
    }

    /// Parses a provider condition code: a tag applies when it owns the
    /// code.  An unknown code fails with `ConditionLookupFail`.
    pub fn parse_code(code: u32) -> (r: Result<TagSet, Error>)
        ensures
            match r {
                Ok(ts) => ts@ == code_tag_set(code) && !code_tag_set(code).is_empty(),
                Err(e) => e == Error::ConditionLookupFail && code_tag_set(code).is_empty(),
            },
    {
        let all = WeatherTag::all();
        let mut ts = TagSet::empty();
        let mut i: usize = 0;
        proof {
            assert(all_tags().take(0).to_set() =~= Set::<WeatherTag>::empty());
            assert(code_tag_set(code).intersect(Set::<WeatherTag>::empty())
                =~= Set::<WeatherTag>::empty());
        }
        while i < all.len()
            invariant
                all@ == all_tags(),
                0 <= i <= all@.len(),
                ts@ == code_tag_set(code).intersect(all_tags().take(i as int).to_set()),
            decreases all@.len() - i,
        {
            let t = all[i];
            proof {
                lemma_take_step(all_tags(), i as int);
            }
            if t.matches_code(code) {
                ts.insert(t);
                proof {
                    assert(code_tag_set(code).intersect(all_tags().take(i as int + 1).to_set())
                        =~= ts@);
                }
            } else {
                proof {
                    assert(code_tag_set(code).intersect(all_tags().take(i as int + 1).to_set())
                        =~= ts@);
                }
            }
            i += 1;
        }
        proof {
            assert(all_tags().take(all_tags().len() as int) =~= all_tags());
            lemma_intersect_all_tags(code_tag_set(code));
            assert(ts@ == code_tag_set(code));
        }
        if ts.is_empty() {
            Err(Error::ConditionLookupFail)
        } else {
            Ok(ts)
        }
    }
}

/// A plain-value snapshot of what the weather provider reported: the
/// condition text, the numeric condition code, and whether it is currently
/// day.  The shell fetches and decodes the provider's reply and hands the
/// values over in this form.
#[derive(Debug)]
pub struct WeatherData {
    text: String,
    code: u32,
    is_day: bool,
}

impl WeatherData {
    /// The reported condition text, abstractly.
    pub closed spec fn spec_text(&self) -> Seq<char> {
        self.text@
    }

    /// The reported condition code, abstractly.
    pub closed spec fn spec_code(&self) -> u32 {
        self.code
    }

    /// The reported day flag, abstractly.
    pub closed spec fn spec_is_day(&self) -> bool {
        self.is_day
    }

    /// Bundles fetched provider values.
    pub fn new(text: String, code: u32, is_day: bool) -> (r: WeatherData)
        ensures
            r.spec_text() == text@,
            r.spec_code() == code,
            r.spec_is_day() == is_day,
    {
        WeatherData { text, code, is_day }
    }

    /// Was it day when the provider reported?
    pub fn is_day(&self) -> (r: bool)
        ensures
            r == self.spec_is_day(),
    {
        self.is_day
    }

    /// The reported condition text.
    pub fn text(&self) -> (r: String)
        ensures
            r@ == self.spec_text(),
    {
        self.text.clone()
    }

    /// The reported condition code.
    pub fn code(&self) -> (r: u32)
        ensures
            r == self.spec_code(),
    {
        self.code
    }
}

/// Builds the weather snapshot for already-fetched provider data: the tags
/// come from parsing the reported condition text against the tag synonyms,
/// and the day flag is taken as reported.  An unrecognized condition fails
/// with `ConditionLookupFail`; the caller decides whether to fall back to a
/// random wallpaper.
pub fn get_current_weather(data: &WeatherData) -> (r: Result<Weather, Error>)
    ensures
        match r {
            Ok(w) => w@.tags == text_tag_set(data.spec_text()) && w@.is_day == Some(
                data.spec_is_day(),
            ) && !text_tag_set(data.spec_text()).is_empty(),
            Err(e) => e == Error::ConditionLookupFail && text_tag_set(data.spec_text()).is_empty(),
        },
{
    match WeatherTag::parse(&data.text()) {
        Ok(ts) => Ok(Weather::new(ts, Some(data.is_day()))),
        Err(e) => Err(e),
    }
}

} // verus!
