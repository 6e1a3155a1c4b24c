//! The table from lower-case country names to their two-letter codes.

use vstd::prelude::*;

verus! {

/// Lower-case country names (spaces written as underscores) and their codes.
pub struct CountryCodeMap {
    entries: Vec<(String, String)>,
    model: Ghost<Map<Seq<char>, Seq<char>>>,
}

/// The names and codes that `CountryCodeMap::standard` holds.
pub open spec fn standard_table() -> Map<Seq<char>, Seq<char>> {
        Map::empty()
            .insert("afghanistan"@, "af"@)
            .insert("albania"@, "al"@)
            .insert("algeria"@, "dz"@)
            .insert("argentina"@, "ar"@)
            .insert("armenia"@, "am"@)
            .insert("australia"@, "au"@)
            .insert("austria"@, "at"@)
            .insert("belgium"@, "be"@)
            .insert("brazil"@, "br"@)
            .insert("bulgaria"@, "bg"@)
            .insert("canada"@, "ca"@)
            .insert("chile"@, "cl"@)
            .insert("colombia"@, "co"@)
            .insert("costa_rica"@, "cr"@)
            .insert("croatia"@, "hr"@)
            .insert("cyprus"@, "cy"@)
            .insert("czech_republic"@, "cz"@)
            .insert("czechia"@, "cz"@)
            .insert("denmark"@, "dk"@)
            .insert("estonia"@, "ee"@)
            .insert("finland"@, "fi"@)
            .insert("france"@, "fr"@)
            .insert("georgia"@, "ge"@)
            .insert("germany"@, "de"@)
            .insert("greece"@, "gr"@)
            .insert("hong_kong"@, "hk"@)
            .insert("hungary"@, "hu"@)
            .insert("iceland"@, "is"@)
            .insert("india"@, "in"@)
            .insert("indonesia"@, "id"@)
            .insert("ireland"@, "ie"@)
            .insert("israel"@, "il"@)
            .insert("italy"@, "it"@)
            .insert("japan"@, "jp"@)
            .insert("latvia"@, "lv"@)
            .insert("lithuania"@, "lt"@)
            .insert("luxembourg"@, "lu"@)
            .insert("malaysia"@, "my"@)
            .insert("mexico"@, "mx"@)
            .insert("moldova"@, "md"@)
            .insert("netherlands"@, "nl"@)
            .insert("new_zealand"@, "nz"@)
            .insert("norway"@, "no"@)
            .insert("peru"@, "pe"@)
            .insert("philippines"@, "ph"@)
            .insert("poland"@, "pl"@)
            .insert("portugal"@, "pt"@)
            .insert("romania"@, "ro"@)
            .insert("serbia"@, "rs"@)
            .insert("singapore"@, "sg"@)
            .insert("slovakia"@, "sk"@)
            .insert("slovenia"@, "si"@)
            .insert("south_africa"@, "za"@)
            .insert("south_korea"@, "kr"@)
            .insert("spain"@, "es"@)
            .insert("sweden"@, "se"@)
            .insert("switzerland"@, "ch"@)
            .insert("taiwan"@, "tw"@)
            .insert("thailand"@, "th"@)
            .insert("turkey"@, "tr"@)
            .insert("ukraine"@, "ua"@)
            .insert("united_arab_emirates"@, "ae"@)
            .insert("united_kingdom"@, "gb"@)
            .insert("united_states"@, "us"@)
            .insert("usa"@, "us"@)
            .insert("uk"@, "gb"@)
            .insert("vietnam"@, "vn"@)
}

impl View for CountryCodeMap {
    type V = Map<Seq<char>, Seq<char>>;

    closed spec fn view(&self) -> Map<Seq<char>, Seq<char>> {
        self.model@
    }
}

impl CountryCodeMap {
    pub closed spec fn wf(&self) -> bool {
        &&& forall|i: int, j: int|
            0 <= i < j < self.entries@.len() ==> #[trigger] self.entries@[i].0@
                != #[trigger] self.entries@[j].0@
        &&& forall|k: Seq<char>|
            #![trigger self.model@.contains_key(k)]
            self.model@.contains_key(k) <==> exists|j: int|
                0 <= j < self.entries@.len() && #[trigger] self.entries@[j].0@ == k
        &&& forall|j: int|
            0 <= j < self.entries@.len() ==> self.model@[#[trigger] self.entries@[j].0@]
                == self.entries@[j].1@
    }

    /// An empty table.
    pub fn new() -> (r: CountryCodeMap)
        ensures
            r.wf(),
            r@ == Map::<Seq<char>, Seq<char>>::empty(),
    {
        CountryCodeMap { entries: Vec::new(), model: Ghost(Map::empty()) }
    }

    /// Maps `name` to `code`, replacing what `name` mapped to before.
    pub fn insert(&mut self, name: String, code: String)
        requires
            old(self).wf(),
        ensures
            final(self).wf(),
            final(self)@ == old(self)@.insert(name@, code@),
    {
        let ghost k = name@;
        let ghost v = code@;
        let mut i: usize = 0;
        while i < self.entries.len()
            invariant
                i <= self.entries.len(),
                *self == *old(self),
                old(self).wf(),
                k == name@,
                v == code@,
                forall|j: int| 0 <= j < i ==> self.entries@[j].0@ != k,
            decreases self.entries.len() - i,
        {
            if self.entries[i].0 == name {
                self.entries.set(i, (name, code));
                self.model = Ghost(self.model@.insert(k, v));
                assert(self.model@ =~= old(self)@.insert(k, v));
                assert forall|kk: Seq<char>| #[trigger]
                    self.model@.contains_key(kk) implies exists|j: int|
                    0 <= j < self.entries@.len() && #[trigger] self.entries@[j].0@ == kk by {
                    if kk != k {
                        assert(old(self).model@.contains_key(kk));
                        let j = choose|j: int|
                            0 <= j < old(self).entries@.len() && #[trigger] old(
                                self,
                            ).entries@[j].0@ == kk;
                        assert(self.entries@[j].0@ == kk);
                    } else {
                        assert(self.entries@[i as int].0@ == kk);
                    }
                }
                return;
            }
            i += 1;
        }
        self.entries.push((name, code));
        self.model = Ghost(self.model@.insert(k, v));
        assert forall|kk: Seq<char>| #[trigger]
            self.model@.contains_key(kk) implies exists|j: int|
            0 <= j < self.entries@.len() && #[trigger] self.entries@[j].0@ == kk by {
            if kk != k {
                assert(old(self).model@.contains_key(kk));
                let j = choose|j: int|
                    0 <= j < old(self).entries@.len() && #[trigger] old(self).entries@[j].0@ == kk;
                assert(self.entries@[j].0@ == kk);
            } else {
                assert(self.entries@[self.entries@.len() - 1].0@ == kk);
            }
        }
    }

    /// The code that `name` maps to.
    pub fn get(&self, name: &String) -> (r: Option<String>)
        requires
            self.wf(),
        ensures
            match r {
                Some(c) => self@.contains_key(name@) && self@[name@] == c@,
                None => !self@.contains_key(name@),
            },
    {
        let mut i: usize = 0;
        while i < self.entries.len()
            invariant
                i <= self.entries.len(),
                self.wf(),
                forall|j: int| 0 <= j < i ==> self.entries@[j].0@ != name@,
            decreases self.entries.len() - i,
        {
            if self.entries[i].0 == *name {
                assert(self.entries@[i as int].0@ == name@);
                assert(self@.contains_key(name@));
                return Some(self.entries[i].1.clone());
            }
            i += 1;
        }
        None
    }

    /// The table of country names that provider bundles use.
    pub fn standard() -> (r: CountryCodeMap)
        ensures
            r.wf(),
            r@ == standard_table(),
    {
        let mut m = CountryCodeMap::new();
        m.insert("afghanistan".to_owned(), "af".to_owned());
        m.insert("albania".to_owned(), "al".to_owned());
        m.insert("algeria".to_owned(), "dz".to_owned());
        m.insert("argentina".to_owned(), "ar".to_owned());
        m.insert("armenia".to_owned(), "am".to_owned());
        m.insert("australia".to_owned(), "au".to_owned());
        m.insert("austria".to_owned(), "at".to_owned());
        m.insert("belgium".to_owned(), "be".to_owned());
        m.insert("brazil".to_owned(), "br".to_owned());
        m.insert("bulgaria".to_owned(), "bg".to_owned());
        m.insert("canada".to_owned(), "ca".to_owned());
        m.insert("chile".to_owned(), "cl".to_owned());
        m.insert("colombia".to_owned(), "co".to_owned());
        m.insert("costa_rica".to_owned(), "cr".to_owned());
        m.insert("croatia".to_owned(), "hr".to_owned());
        m.insert("cyprus".to_owned(), "cy".to_owned());
        m.insert("czech_republic".to_owned(), "cz".to_owned());
        m.insert("czechia".to_owned(), "cz".to_owned());
        m.insert("denmark".to_owned(), "dk".to_owned());
        m.insert("estonia".to_owned(), "ee".to_owned());
        m.insert("finland".to_owned(), "fi".to_owned());
        m.insert("france".to_owned(), "fr".to_owned());
        m.insert("georgia".to_owned(), "ge".to_owned());
        m.insert("germany".to_owned(), "de".to_owned());
        m.insert("greece".to_owned(), "gr".to_owned());
        m.insert("hong_kong".to_owned(), "hk".to_owned());
        m.insert("hungary".to_owned(), "hu".to_owned());
        m.insert("iceland".to_owned(), "is".to_owned());
        m.insert("india".to_owned(), "in".to_owned());
        m.insert("indonesia".to_owned(), "id".to_owned());
        m.insert("ireland".to_owned(), "ie".to_owned());
        m.insert("israel".to_owned(), "il".to_owned());
        m.insert("italy".to_owned(), "it".to_owned());
        m.insert("japan".to_owned(), "jp".to_owned());
        m.insert("latvia".to_owned(), "lv".to_owned());
        m.insert("lithuania".to_owned(), "lt".to_owned());
        m.insert("luxembourg".to_owned(), "lu".to_owned());
        m.insert("malaysia".to_owned(), "my".to_owned());
        m.insert("mexico".to_owned(), "mx".to_owned());
        m.insert("moldova".to_owned(), "md".to_owned());
        m.insert("netherlands".to_owned(), "nl".to_owned());
        m.insert("new_zealand".to_owned(), "nz".to_owned());
        m.insert("norway".to_owned(), "no".to_owned());
        m.insert("peru".to_owned(), "pe".to_owned());
        m.insert("philippines".to_owned(), "ph".to_owned());
        m.insert("poland".to_owned(), "pl".to_owned());
        m.insert("portugal".to_owned(), "pt".to_owned());
        m.insert("romania".to_owned(), "ro".to_owned());
        m.insert("serbia".to_owned(), "rs".to_owned());
        m.insert("singapore".to_owned(), "sg".to_owned());
        m.insert("slovakia".to_owned(), "sk".to_owned());
        m.insert("slovenia".to_owned(), "si".to_owned());
        m.insert("south_africa".to_owned(), "za".to_owned());
        m.insert("south_korea".to_owned(), "kr".to_owned());
        m.insert("spain".to_owned(), "es".to_owned());
        m.insert("sweden".to_owned(), "se".to_owned());
        m.insert("switzerland".to_owned(), "ch".to_owned());
        m.insert("taiwan".to_owned(), "tw".to_owned());
        m.insert("thailand".to_owned(), "th".to_owned());
        m.insert("turkey".to_owned(), "tr".to_owned());
        m.insert("ukraine".to_owned(), "ua".to_owned());
        m.insert("united_arab_emirates".to_owned(), "ae".to_owned());
        m.insert("united_kingdom".to_owned(), "gb".to_owned());
        m.insert("united_states".to_owned(), "us".to_owned());
        m.insert("usa".to_owned(), "us".to_owned());
        m.insert("uk".to_owned(), "gb".to_owned());
        m.insert("vietnam".to_owned(), "vn".to_owned());
        m
    }
}

} // verus!
