//! The read-only registry of bundled voice-conditioning profiles, keyed
//! by language and speaker name.
//!
//! Lookups canonicalize both keys (lower-case, surrounding whitespace
//! trimmed).  A failed lookup names what was asked for and lists what is
//! available instead of failing silently.

use vstd::prelude::*;
use vstd::string::*;
use crate::chars::{
    chars_to_string, is_space, is_space_exec, lower_char, lower_char_exec, str_to_chars,
};
use crate::errors::SpeakerError;
use crate::normalize::lower_all;
use crate::prompt::word_in;

verus! {

/// The text with leading whitespace removed.
pub open spec fn trim_front(s: Seq<char>) -> Seq<char>
    decreases s.len(),
{
    if s.len() > 0 && is_space(s[0]) {
        trim_front(s.skip(1))
    } else {
        s
    }
}

/// The text with trailing whitespace removed.
pub open spec fn trim_back(s: Seq<char>) -> Seq<char>
    decreases s.len(),
{
    if s.len() > 0 && is_space(s.last()) {
        trim_back(s.drop_last())
    } else {
        s
    }
}

/// The canonical form of a lookup key: lower-cased, then trimmed.
pub open spec fn canon(s: Seq<char>) -> Seq<char> {
    trim_back(trim_front(lower_all(s)))
}

/// Lower-cases and trims a lookup key.
pub fn canon_exec(s: &str) -> (r: String)
    ensures
        r@ == canon(s@),
{
    let cs = str_to_chars(s);
    let mut ls: Vec<char> = Vec::new();
    let mut i: usize = 0;
    while i < cs.len()
        invariant
            i <= cs@.len(),
            ls@.len() == i,
            forall|k: int| 0 <= k < i ==> ls@[k] == lower_char(cs@[k]),
        decreases cs@.len() - i,
    {
        ls.push(lower_char_exec(cs[i]));
        i = i + 1;
    }
    assert(ls@ =~= lower_all(s@));
    assert(ls@.skip(0) =~= ls@);
    let mut start: usize = 0;
    while start < ls.len() && is_space_exec(ls[start])
        invariant
            start <= ls@.len(),
            trim_front(ls@) == trim_front(ls@.skip(start as int)),
        decreases ls@.len() - start,
    {
        proof {
            assert(ls@.skip(start as int).skip(1) =~= ls@.skip(start + 1));
            assert(ls@.skip(start as int)[0] == ls@[start as int]);
        }
        start = start + 1;
    }
    proof {
        if start < ls@.len() {
            assert(ls@.skip(start as int)[0] == ls@[start as int]);
        } else {
            assert(ls@.skip(start as int) =~= Seq::<char>::empty());
        }
        assert(trim_front(ls@) == ls@.skip(start as int));
    }
    let mut end: usize = ls.len();
    while end > start && is_space_exec(ls[end - 1])
        invariant
            start <= end <= ls@.len(),
            trim_back(ls@.skip(start as int)) == trim_back(
                ls@.subrange(start as int, end as int),
            ),
        decreases end,
    {
        proof {
            assert(ls@.subrange(start as int, end as int).drop_last() =~= ls@.subrange(
                start as int,
                end - 1,
            ));
            assert(ls@.subrange(start as int, end as int).last() == ls@[end - 1]);
        }
        end = end - 1;
    }
    proof {
        let sub = ls@.subrange(start as int, end as int);
        if end > start {
            assert(sub.last() == ls@[end - 1]);
        }
        assert(trim_back(ls@.skip(start as int)) == sub);
    }
    let mut out: Vec<char> = Vec::new();
    let mut k: usize = start;
    while k < end
        invariant
            start <= k <= end,
            out@ == ls@.subrange(start as int, k as int),
        decreases end - k,
    {
        out.push(ls[k]);
        k = k + 1;
        assert(out@ =~= ls@.subrange(start as int, k as int));
    }
    proof {
        assert(out@ =~= canon(s@));
    }
    chars_to_string(&out)
}

/// The bundled speaker names of one language.
pub struct LanguageSpeakers {
    pub language: String,
    pub speakers: Vec<String>,
}

/// The process-wide, read-only speaker registry.
pub struct SpeakerRepository {
    pub entries: Vec<LanguageSpeakers>,
}

/// The registry as a mathematical value: one (language, speaker names)
/// pair per entry, in order.
pub open spec fn registry_model(r: SpeakerRepository) -> Seq<(Seq<char>, Seq<Seq<char>>)> {
    r.entries@.map_values(|e: LanguageSpeakers| (e.language@, e.speakers.deep_view()))
}

pub open spec fn has_language(m: Seq<(Seq<char>, Seq<Seq<char>>)>, l: Seq<char>) -> bool {
    exists|i: int| 0 <= i < m.len() && m[i].0 == l
}

/// Every language appears at most once: the registry is a map.
pub open spec fn distinct_languages(m: Seq<(Seq<char>, Seq<Seq<char>>)>) -> bool {
    forall|i: int, j: int| 0 <= i < j < m.len() ==> m[i].0 != m[j].0
}

pub open spec fn has_speaker(
    m: Seq<(Seq<char>, Seq<Seq<char>>)>,
    l: Seq<char>,
    s: Seq<char>,
) -> bool {
    exists|i: int| 0 <= i < m.len() && m[i].0 == l && word_in(m[i].1, s)
}

fn push_entry(entries: &mut Vec<LanguageSpeakers>, language: &str, speakers: &Vec<String>)
    ensures
        final(entries)@.len() == old(entries)@.len() + 1,
        registry_model(SpeakerRepository { entries: *final(entries) }) == registry_model(
            SpeakerRepository { entries: *old(entries) },
        ).push((language@, speakers.deep_view())),
{
    let mut names: Vec<String> = Vec::new();
    let mut i: usize = 0;
    while i < speakers.len()
        invariant
            i <= speakers@.len(),
            names.deep_view() == speakers.deep_view().subrange(0, i as int),
        decreases speakers@.len() - i,
    {
        names.push(speakers[i].clone());
        i = i + 1;
        assert(names.deep_view() =~= speakers.deep_view().subrange(0, i as int));
    }
    assert(names.deep_view() =~= speakers.deep_view());
    entries.push(LanguageSpeakers { language: language.to_owned(), speakers: names });
    proof {
        assert(registry_model(SpeakerRepository { entries: *entries }) =~= registry_model(
            SpeakerRepository { entries: *old(entries) },
        ).push((language@, speakers.deep_view())));
    }
}

impl SpeakerRepository {
    /// The bundled registry as a mathematical value.
    pub open spec fn spec_default_model() -> Seq<(Seq<char>, Seq<Seq<char>>)> {
        seq![
            ("en"@, seq!["male_1"@, "male_2"@, "male_3"@, "male_4"@, "female_1"@, "female_2"@]),
            ("ja"@, seq!["male_1"@, "female_1"@, "female_2"@, "female_3"@]),
            ("ko"@, seq!["male_1"@, "male_2"@, "female_1"@, "female_2"@]),
            ("zh"@, seq!["male_1"@, "female_1"@]),
        ]
    }

    /// The bundled registry: the fixed languages with their fixed
    /// speaker names.
    pub fn new() -> (r: SpeakerRepository)
        ensures
            registry_model(r) =~= SpeakerRepository::spec_default_model(),
    {
        let mut entries: Vec<LanguageSpeakers> = Vec::new();
        let en = string_list6("male_1", "male_2", "male_3", "male_4", "female_1", "female_2");
        push_entry(&mut entries, "en", &en);
        let ja = string_list4("male_1", "female_1", "female_2", "female_3");
        push_entry(&mut entries, "ja", &ja);
        let ko = string_list4("male_1", "male_2", "female_1", "female_2");
        push_entry(&mut entries, "ko", &ko);
        let zh = string_list2("male_1", "female_1");
        push_entry(&mut entries, "zh", &zh);
        let r = SpeakerRepository { entries };
        proof {
            assert(registry_model(r) =~= seq![
                ("en"@, seq!["male_1"@, "male_2"@, "male_3"@, "male_4"@, "female_1"@, "female_2"@]),
                ("ja"@, seq!["male_1"@, "female_1"@, "female_2"@, "female_3"@]),
                ("ko"@, seq!["male_1"@, "male_2"@, "female_1"@, "female_2"@]),
                ("zh"@, seq!["male_1"@, "female_1"@]),
            ]);
        }
        r
    }

    /// Whether the registry bundles a speaker of that name for that
    /// language, both keys canonicalized.  A miss is an error naming the
    /// missing key and listing what is available at that level.
    pub fn validate(&self, language: &str, speaker: &str) -> (r: Result<bool, SpeakerError>)
        requires
            distinct_languages(registry_model(*self)),
        ensures
            !has_language(registry_model(*self), canon(language@)) ==> (r matches Err(e) && e
                matches SpeakerError::UnknownLanguage { language: l, available: av } && l@ == canon(
                language@,
            ) && av.deep_view() == registry_model(*self).map_values(
                |p: (Seq<char>, Seq<Seq<char>>)| p.0,
            )),
            has_language(registry_model(*self), canon(language@)) && !has_speaker(
                registry_model(*self),
                canon(language@),
                canon(speaker@),
            ) ==> (r matches Err(e) && e matches SpeakerError::UnknownSpeaker {
                language: l,
                speaker: sp,
                available: av,
            } && l@ == canon(language@) && sp@ == canon(speaker@) && exists|i: int|
                0 <= i < registry_model(*self).len() && registry_model(*self)[i].0 == canon(
                    language@,
                ) && av.deep_view() == registry_model(*self)[i].1),
            has_speaker(registry_model(*self), canon(language@), canon(speaker@)) ==> r == Ok::<
                bool,
                SpeakerError,
            >(true),
    {
        let lang = canon_exec(language);
        let name = canon_exec(speaker);
        let ghost m = registry_model(*self);
        proof {
            assert(m.len() == self.entries@.len());
            assert(forall|i: int|
                0 <= i < self.entries@.len() ==> m[i] == (
                #[trigger] self.entries@[i].language@,
                self.entries@[i].speakers.deep_view(),
            ));
        }
        let mut i: usize = 0;
        while i < self.entries.len()
            invariant
                i <= self.entries@.len(),
                forall|k: int| 0 <= k < i ==> #[trigger] m[k].0 != lang@,
            decreases self.entries@.len() - i,
        {
            if self.entries[i].language == lang {
                let entry = &self.entries[i];
                let mut j: usize = 0;
                while j < entry.speakers.len()
                    invariant
                        j <= entry.speakers@.len(),
                        forall|k: int|
                            0 <= k < j ==> #[trigger] entry.speakers.deep_view()[k] != name@,
                    decreases entry.speakers@.len() - j,
                {
                    proof {
                        assert(entry.speakers.deep_view()[j as int] == entry.speakers@[j as int]@);
                    }
                    if entry.speakers[j] == name {
                        proof {
                            assert(word_in(m[i as int].1, name@));
                            assert(has_speaker(m, lang@, name@));
                        }
                        return Ok(true);
                    }
                    j = j + 1;
                }
                proof {
                    assert(!word_in(m[i as int].1, name@));
                }
                let mut available: Vec<String> = Vec::new();
                let mut k: usize = 0;
                while k < entry.speakers.len()
                    invariant
                        k <= entry.speakers@.len(),
                        available.deep_view() == entry.speakers.deep_view().subrange(0, k as int),
                    decreases entry.speakers@.len() - k,
                {
                    available.push(entry.speakers[k].clone());
                    k = k + 1;
                    assert(available.deep_view() =~= entry.speakers.deep_view().subrange(
                        0,
                        k as int,
                    ));
                }
                assert(available.deep_view() =~= m[i as int].1);
                proof {
                    if has_speaker(m, lang@, name@) {
                        let w = choose|w: int|
                            0 <= w < m.len() && m[w].0 == lang@ && word_in(m[w].1, name@);
                        assert(w == i as int);
                        assert(false);
                    }
                }
                return Err(
                    SpeakerError::UnknownSpeaker { language: lang, speaker: name, available },
                );
            }
            i = i + 1;
        }
        proof {
            assert(!has_language(m, lang@));
        }
        let mut available: Vec<String> = Vec::new();
        let mut k: usize = 0;
        while k < self.entries.len()
            invariant
                k <= self.entries@.len(),
                available.deep_view() == m.map_values(|p: (Seq<char>, Seq<Seq<char>>)| p.0)
                    .subrange(0, k as int),
            decreases self.entries@.len() - k,
        {
            available.push(self.entries[k].language.clone());
            k = k + 1;
            assert(available.deep_view() =~= m.map_values(|p: (Seq<char>, Seq<Seq<char>>)| p.0)
                .subrange(0, k as int));
        }
        assert(available.deep_view() =~= m.map_values(|p: (Seq<char>, Seq<Seq<char>>)| p.0));
        Err(SpeakerError::UnknownLanguage { language: lang, available })
    }
}

/// The bundled registry's four languages are pairwise different, so the
/// registry is a proper map.
pub proof fn lemma_default_registry_distinct(m: Seq<(Seq<char>, Seq<Seq<char>>)>)
    requires
        m =~= SpeakerRepository::spec_default_model(),
    ensures
        distinct_languages(m),
{
    reveal_strlit("en");
    reveal_strlit("ja");
    reveal_strlit("ko");
    reveal_strlit("zh");
    assert("en"@[0] != "ja"@[0]);
    assert("en"@[0] != "ko"@[0]);
    assert("en"@[0] != "zh"@[0]);
    assert("ja"@[0] != "ko"@[0]);
    assert("ja"@[0] != "zh"@[0]);
    assert("ko"@[0] != "zh"@[0]);
}

fn string_list2(a: &str, b: &str) -> (r: Vec<String>)
    ensures
        r.deep_view() =~= seq![a@, b@],
{
    let mut r: Vec<String> = Vec::new();
    r.push(a.to_owned());
    r.push(b.to_owned());
    r
}

fn string_list4(a: &str, b: &str, c: &str, d: &str) -> (r: Vec<String>)
    ensures
        r.deep_view() =~= seq![a@, b@, c@, d@],
{
    let mut r: Vec<String> = Vec::new();
    r.push(a.to_owned());
    r.push(b.to_owned());
    r.push(c.to_owned());
    r.push(d.to_owned());
    r
}

fn string_list6(a: &str, b: &str, c: &str, d: &str, e: &str, f: &str) -> (r: Vec<String>)
    ensures
        r.deep_view() =~= seq![a@, b@, c@, d@, e@, f@],
{
    let mut r: Vec<String> = Vec::new();
    r.push(a.to_owned());
    r.push(b.to_owned());
    r.push(c.to_owned());
    r.push(d.to_owned());
    r.push(e.to_owned());
    r.push(f.to_owned());
    r
}

} // verus!
