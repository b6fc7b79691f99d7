//! Per-field content-filter profiles.

use crate::collections::{text_set, StrMap, StrSet};
use crate::logs::{LogLevel, Logs};
use crate::pattern::{compiles, compiles_as_signature, regex_compiles, signature_compiles};
use crate::raw::{RawWafEntryMatch, RawWafProfile, RawWafProperties, WafSignature};
use crate::strings::joined;
use vstd::prelude::*;

verus! {

/// One value for each of the four request fields a profile speaks of.
#[derive(Debug)]
pub struct Section<A> {
    pub headers: A,
    pub cookies: A,
    pub args: A,
    pub path: A,
}

/// Selects one field of a [`Section`].
#[derive(Debug, Clone, Copy, PartialEq, Eq, Structural)]
pub enum SectionIdx {
    Headers,
    Cookies,
    Args,
    Path,
}

impl<A> Section<A> {
    /// The field that `idx` selects.
    pub open spec fn spec_get(self, idx: SectionIdx) -> A {
        match idx {
            SectionIdx::Headers => self.headers,
            SectionIdx::Cookies => self.cookies,
            SectionIdx::Args => self.args,
            SectionIdx::Path => self.path,
        }
    }

    /// This section with the field that `idx` selects replaced by `a`.
    pub open spec fn spec_set(self, idx: SectionIdx, a: A) -> Self {
        match idx {
            SectionIdx::Headers => Section { headers: a, ..self },
            SectionIdx::Cookies => Section { cookies: a, ..self },
            SectionIdx::Args => Section { args: a, ..self },
            SectionIdx::Path => Section { path: a, ..self },
        }
    }

    pub fn get(&self, idx: SectionIdx) -> (r: &A)
        ensures
            *r == self.spec_get(idx),
    {
        match idx {
            SectionIdx::Headers => &self.headers,
            SectionIdx::Cookies => &self.cookies,
            SectionIdx::Args => &self.args,
            SectionIdx::Path => &self.path,
        }
    }

    pub fn at(&mut self, idx: SectionIdx) -> (r: &mut A)
        ensures
            *r == old(self).spec_get(idx),
            *final(self) == old(self).spec_set(idx, *final(r)),
    {
        match idx {
            SectionIdx::Headers => &mut self.headers,
            SectionIdx::Cookies => &mut self.cookies,
            SectionIdx::Args => &mut self.args,
            SectionIdx::Path => &mut self.path,
        }
    }
}

impl<A: Default> Default for Section<A> {
    /// The section whose four fields are default values.
    fn default() -> (r: Self)
        ensures
            call_ensures(A::default, (), r.headers),
            call_ensures(A::default, (), r.cookies),
            call_ensures(A::default, (), r.args),
            call_ensures(A::default, (), r.path),
    {
        Section {
            headers: A::default(),
            cookies: A::default(),
            args: A::default(),
            path: A::default(),
        }
    }
}

/// A decoding applied to a value before it is matched.
#[derive(Debug, Clone, Copy, PartialEq, Eq, Structural)]
pub enum Transformation {
    Base64Decode,
    HtmlEntitiesDecode,
    UnicodeDecode,
    UrlDecode,
}

impl Transformation {
    /// The decodings of the default profile, in the order they are applied.
    pub open spec fn default_policy() -> Seq<Transformation> {
        seq![
            Transformation::Base64Decode,
            Transformation::HtmlEntitiesDecode,
            Transformation::UnicodeDecode,
            Transformation::UrlDecode,
        ]
    }

    /// The decodings of a configured profile, in the order they are applied.
    pub open spec fn configured_policy() -> Seq<Transformation> {
        seq![
            Transformation::Base64Decode,
            Transformation::UrlDecode,
            Transformation::HtmlEntitiesDecode,
            Transformation::UnicodeDecode,
        ]
    }
}

/// How the values of one name are checked.
#[derive(Debug)]
pub struct WafEntryMatch {
    /// The pattern that a value has to match, if any. It compiles.
    pub reg: Option<String>,
    pub restrict: bool,
    pub mask: bool,
    /// The ids of the rules that are not applied to these values.
    pub exclusions: StrSet,
}

/// What a [`WafEntryMatch`] says.
pub struct WafEntryMatchView {
    pub reg: Option<Seq<char>>,
    pub restrict: bool,
    pub mask: bool,
    pub exclusions: Set<Seq<char>>,
}

impl View for WafEntryMatch {
    type V = WafEntryMatchView;

    open spec fn view(&self) -> WafEntryMatchView {
        WafEntryMatchView {
            reg: match self.reg {
                Some(p) => Some(p@),
                None => None,
            },
            restrict: self.restrict,
            mask: self.mask,
            exclusions: self.exclusions@,
        }
    }
}

impl WafEntryMatch {
    /// The pattern, if there is one, compiles.
    pub open spec fn wf(&self) -> bool {
        self.reg matches Some(p) ==> regex_compiles(p@)
    }
}

/// The matchers and bounds of one request field.
#[derive(Debug)]
pub struct WafSection {
    pub max_count: usize,
    pub max_length: usize,
    /// The matchers by exact name.
    pub names: StrMap<WafEntryMatch>,
    /// The matchers by pattern on the name, tried in this order. Every pattern compiles.
    pub regex: Vec<(String, WafEntryMatch)>,
}

/// What a [`WafSection`] says.
pub struct WafSectionView {
    pub max_count: usize,
    pub max_length: usize,
    pub names: Map<Seq<char>, WafEntryMatchView>,
    pub regex: Seq<(Seq<char>, WafEntryMatchView)>,
}

/// What a list of matchers by pattern says.
pub open spec fn regex_view(s: Seq<(String, WafEntryMatch)>) -> Seq<(Seq<char>, WafEntryMatchView)> {
    Seq::new(s.len(), |i: int| (s[i].0@, s[i].1@))
}

impl View for WafSection {
    type V = WafSectionView;

    open spec fn view(&self) -> WafSectionView {
        WafSectionView {
            max_count: self.max_count,
            max_length: self.max_length,
            names: self.names@,
            regex: regex_view(self.regex@),
        }
    }
}

impl WafSection {
    /// Every pattern of the field compiles: those that values are held to, and those
    /// that names are matched with.
    pub open spec fn wf(&self) -> bool {
        &&& forall|i: int|
            0 <= i < self.names.entries@.len() ==> (#[trigger] self.names.entries@[i]).1.wf()
        &&& forall|i: int|
            0 <= i < self.regex@.len() ==> regex_compiles((#[trigger] self.regex@[i]).0@)
                && self.regex@[i].1.wf()
    }
}

/// A named content-filter policy.
#[derive(Debug)]
pub struct WafProfile {
    pub id: String,
    pub name: String,
    pub ignore_alphanum: bool,
    pub sections: Section<WafSection>,
    pub decoding: Vec<Transformation>,
}

/// What a [`WafProfile`] says.
pub struct WafProfileView {
    pub id: Seq<char>,
    pub name: Seq<char>,
    pub ignore_alphanum: bool,
    pub sections: Section<WafSectionView>,
    pub decoding: Seq<Transformation>,
}

impl View for WafProfile {
    type V = WafProfileView;

    open spec fn view(&self) -> WafProfileView {
        WafProfileView {
            id: self.id@,
            name: self.name@,
            ignore_alphanum: self.ignore_alphanum,
            sections: Section {
                headers: self.sections.headers@,
                cookies: self.sections.cookies@,
                args: self.sections.args@,
                path: self.sections.path@,
            },
            decoding: self.decoding@,
        }
    }
}

impl WafProfile {
    /// Every pattern of the profile compiles.
    pub open spec fn wf(&self) -> bool {
        &&& self.sections.headers.wf()
        &&& self.sections.cookies.wf()
        &&& self.sections.args.wf()
        &&& self.sections.path.wf()
    }
}

/// A section without matchers.
pub open spec fn bounds_only(max_count: usize, max_length: usize) -> WafSectionView {
    WafSectionView { max_count, max_length, names: Map::empty(), regex: Seq::empty() }
}

/// The profile used where a request names no other: conservative bounds, no matchers.
pub open spec fn default_profile() -> WafProfileView {
    WafProfileView {
        id: "__default__"@,
        name: "default waf"@,
        ignore_alphanum: true,
        sections: Section {
            headers: bounds_only(42, 1024),
            cookies: bounds_only(42, 1024),
            args: bounds_only(512, 1024),
            path: bounds_only(42, 2048),
        },
        decoding: Transformation::default_policy(),
    }
}

fn empty_section(max_count: usize, max_length: usize) -> (s: WafSection)
    ensures
        s@ == bounds_only(max_count, max_length),
        s.wf(),
{
    let s = WafSection { max_count, max_length, names: StrMap::new(), regex: Vec::new() };
    assert(s@.regex =~= Seq::empty());
    s
}

impl Default for WafProfile {
    fn default() -> (r: Self)
        ensures
            r@ == default_profile(),
            r.wf(),
    {
        let mut decoding: Vec<Transformation> = Vec::new();
        decoding.push(Transformation::Base64Decode);
        decoding.push(Transformation::HtmlEntitiesDecode);
        decoding.push(Transformation::UnicodeDecode);
        decoding.push(Transformation::UrlDecode);
        assert(decoding@ =~= Transformation::default_policy());
        WafProfile {
            id: "__default__".to_string(),
            name: "default waf".to_string(),
            ignore_alphanum: true,
            sections: Section {
                headers: empty_section(42, 1024),
                args: empty_section(512, 1024),
                cookies: empty_section(42, 1024),
                path: empty_section(42, 2048),
            },
            decoding,
        }
    }
}

/// Why a profile or a signature set was not accepted.
#[derive(Debug)]
pub enum WafError {
    /// This pattern does not compile.
    InvalidPattern(String),
}

impl WafError {
    /// The pattern that did not compile.
    pub open spec fn pattern(&self) -> Seq<char> {
        match self {
            WafError::InvalidPattern(p) => p@,
        }
    }
}

/// The pattern of a matcher that does not compile, if there is one. An empty pattern
/// stands for no pattern.
pub open spec fn entry_error(em: &RawWafEntryMatch) -> Option<Seq<char>> {
    match em.reg {
        Some(s) => if s@.len() > 0 && !regex_compiles(s@) {
            Some(s@)
        } else {
            None
        },
        None => None,
    }
}

/// What a matcher compiles to.
pub open spec fn compiled_entry(em: &RawWafEntryMatch) -> WafEntryMatchView {
    WafEntryMatchView {
        reg: match em.reg {
            Some(s) => if s@.len() > 0 {
                Some(s@)
            } else {
                None
            },
            None => None,
        },
        restrict: em.restrict,
        mask: match em.mask {
            Some(m) => m,
            None => false,
        },
        exclusions: text_set(em.exclusions@),
    }
}

/// The pattern of a matcher by pattern that does not compile, if there is one: its own, or
/// else its key, which is the pattern on the name.
pub open spec fn regex_entry_error(em: &RawWafEntryMatch) -> Option<Seq<char>> {
    match entry_error(em) {
        Some(p) => Some(p),
        None => if regex_compiles(em.key@) {
            None
        } else {
            Some(em.key@)
        },
    }
}

/// The first pattern among the matchers by name that does not compile.
pub open spec fn names_error(entries: Seq<RawWafEntryMatch>) -> Option<Seq<char>>
    decreases entries.len(),
{
    if entries.len() == 0 {
        None
    } else {
        match names_error(entries.drop_last()) {
            Some(p) => Some(p),
            None => entry_error(&entries.last()),
        }
    }
}

/// The first pattern among the matchers by pattern that does not compile.
pub open spec fn regexes_error(entries: Seq<RawWafEntryMatch>) -> Option<Seq<char>>
    decreases entries.len(),
{
    if entries.len() == 0 {
        None
    } else {
        match regexes_error(entries.drop_last()) {
            Some(p) => Some(p),
            None => regex_entry_error(&entries.last()),
        }
    }
}

/// What the matchers by name compile to. Where two share a name, the later one counts.
pub open spec fn compiled_names(entries: Seq<RawWafEntryMatch>) -> Map<Seq<char>, WafEntryMatchView>
    decreases entries.len(),
{
    if entries.len() == 0 {
        Map::empty()
    } else {
        compiled_names(entries.drop_last()).insert(
            entries.last().key@,
            compiled_entry(&entries.last()),
        )
    }
}

/// What the matchers by pattern compile to, in order.
pub open spec fn compiled_regexes(entries: Seq<RawWafEntryMatch>) -> Seq<
    (Seq<char>, WafEntryMatchView),
> {
    Seq::new(entries.len(), |i: int| (entries[i].key@, compiled_entry(&entries[i])))
}

/// The first pattern of a field that does not compile: the matchers by name are looked
/// at before those by pattern.
pub open spec fn section_error(props: &RawWafProperties) -> Option<Seq<char>> {
    match names_error(props.names@) {
        Some(p) => Some(p),
        None => regexes_error(props.regex@),
    }
}

/// What the matchers of a field compile to, under the bounds given.
pub open spec fn compiled_section(props: &RawWafProperties, max_length: usize, max_count: usize) -> WafSectionView {
    WafSectionView {
        max_count,
        max_length,
        names: compiled_names(props.names@),
        regex: compiled_regexes(props.regex@),
    }
}

/// The first pattern of a profile that does not compile: headers, cookies, arguments and
/// path are looked at in this order.
pub open spec fn profile_error(entry: &RawWafProfile) -> Option<Seq<char>> {
    match section_error(&entry.headers) {
        Some(p) => Some(p),
        None => match section_error(&entry.cookies) {
            Some(p) => Some(p),
            None => match section_error(&entry.args) {
                Some(p) => Some(p),
                None => section_error(&entry.path),
            },
        },
    }
}

/// What a profile compiles to. The path is held to the bounds of the arguments.
pub open spec fn compiled_profile(entry: &RawWafProfile) -> WafProfileView {
    WafProfileView {
        id: entry.id@,
        name: entry.name@,
        ignore_alphanum: entry.ignore_alphanum,
        sections: Section {
            headers: compiled_section(
                &entry.headers,
                entry.max_header_length,
                entry.max_headers_count,
            ),
            cookies: compiled_section(
                &entry.cookies,
                entry.max_cookie_length,
                entry.max_cookies_count,
            ),
            args: compiled_section(&entry.args, entry.max_arg_length, entry.max_args_count),
            path: compiled_section(&entry.path, entry.max_arg_length, entry.max_args_count),
        },
        decoding: Transformation::configured_policy(),
    }
}

/// The profiles of `raws` that compile, by id. Where two share an id, the later one
/// counts.
pub open spec fn compiled_profiles(raws: Seq<RawWafProfile>) -> Map<Seq<char>, WafProfileView>
    decreases raws.len(),
{
    if raws.len() == 0 {
        Map::empty()
    } else {
        let front = compiled_profiles(raws.drop_last());
        if profile_error(&raws.last()) is None {
            front.insert(raws.last().id@, compiled_profile(&raws.last()))
        } else {
            front
        }
    }
}

/// The message recorded for a profile that was dropped.
pub open spec fn dropped_message(id: Seq<char>, pattern: Seq<char>) -> Seq<char> {
    "waf id "@ + id + ": invalid pattern "@ + pattern
}

/// The messages recorded for the profiles of `raws` that do not compile, in order.
pub open spec fn dropped_profiles(raws: Seq<RawWafProfile>) -> Seq<(LogLevel, Seq<char>)>
    decreases raws.len(),
{
    if raws.len() == 0 {
        Seq::empty()
    } else {
        let front = dropped_profiles(raws.drop_last());
        match profile_error(&raws.last()) {
            Some(p) => front.push((LogLevel::Error, dropped_message(raws.last().id@, p))),
            None => front,
        }
    }
}

/// Compiles one matcher: its key and how values are checked under it.
///
/// An empty pattern is taken as no pattern. Any other pattern has to compile.
pub fn mk_entry_match(em: &RawWafEntryMatch) -> (r: Result<(String, WafEntryMatch), WafError>)
    ensures
        match r {
            Ok((key, m)) => entry_error(em) is None && key@ == em.key@ && m@ == compiled_entry(em)
                && m.wf(),
            Err(e) => entry_error(em) == Some(e.pattern()),
        },
{
    let reg = match &em.reg {
        None => None,
        Some(s) => {
            if s.as_str().is_empty() {
                None
            } else if compiles(s.as_str()) {
                Some(s.clone())
            } else {
                return Err(WafError::InvalidPattern(s.clone()));
            }
        },
    };
    let mut exclusions = StrSet::new();
    let mut i: usize = 0;
    proof {
        assert(exclusions@ =~= text_set(em.exclusions@.take(0)));
    }
    while i < em.exclusions.len()
        invariant
            i <= em.exclusions@.len(),
            exclusions@ == text_set(em.exclusions@.take(i as int)),
        decreases em.exclusions@.len() - i,
    {
        exclusions.insert(em.exclusions[i].clone());
        proof {
            let s0 = em.exclusions@.take(i as int);
            let s1 = em.exclusions@.take(i + 1);
            let k = em.exclusions@[i as int]@;
            assert forall|q: Seq<char>|
                text_set(s1).contains(q) <==> text_set(
                    s0,
                ).insert(k).contains(q) by {
                if text_set(s1).contains(q) {
                    let j = choose|j: int| 0 <= j < s1.len() && (#[trigger] s1[j])@ == q;
                    if j < i {
                        assert(s0[j]@ == q);
                    }
                }
                if text_set(s0).contains(q) {
                    let j = choose|j: int| 0 <= j < s0.len() && (#[trigger] s0[j])@ == q;
                    assert(s1[j]@ == q);
                }
                if q == k {
                    assert(s1[i as int]@ == q);
                }
            }
            assert(exclusions@ =~= text_set(s1));
        }
        i += 1;
    }
    proof {
        assert(em.exclusions@.take(em.exclusions@.len() as int) =~= em.exclusions@);
    }
    Ok(
        (
            em.key.clone(),
            WafEntryMatch {
                restrict: em.restrict,
                mask: match em.mask {
                    Some(m) => m,
                    None => false,
                },
                exclusions,
                reg,
            },
        ),
    )
}

/// Compiles the matchers of one field and puts the field under the bounds given. The
/// bounds hold whether or not a matcher speaks of a value.
pub fn mk_section(props: &RawWafProperties, max_length: usize, max_count: usize) -> (r: Result<
    WafSection,
    WafError,
>)
    ensures
        match r {
            Ok(s) => section_error(props) is None && s@ == compiled_section(
                props,
                max_length,
                max_count,
            ) && s.wf(),
            Err(e) => section_error(props) == Some(e.pattern()),
        },
{
    let mut names: StrMap<WafEntryMatch> = StrMap::new();
    let mut i: usize = 0;
    while i < props.names.len()
        invariant
            i <= props.names@.len(),
            names_error(props.names@.take(i as int)) is None,
            names@ == compiled_names(props.names@.take(i as int)),
            forall|k: int| 0 <= k < names.entries@.len() ==> (#[trigger] names.entries@[k]).1.wf(),
        decreases props.names@.len() - i,
    {
        proof {
            assert(props.names@.take(i + 1).drop_last() =~= props.names@.take(i as int));
            assert(props.names@.take(i + 1).last() == props.names@[i as int]);
        }
        match mk_entry_match(&props.names[i]) {
            Ok((key, m)) => {
                names.insert(key, m);
            },
            Err(e) => {
                proof {
                    lemma_names_error_prefix(props.names@, i + 1);
                }
                return Err(e);
            },
        }
        i += 1;
    }
    proof {
        assert(props.names@.take(props.names@.len() as int) =~= props.names@);
    }
    let mut regex: Vec<(String, WafEntryMatch)> = Vec::new();
    let mut j: usize = 0;
    proof {
        assert(regex_view(regex@) =~= compiled_regexes(props.regex@.take(0)));
    }
    while j < props.regex.len()
        invariant
            j <= props.regex@.len(),
            names_error(props.names@) is None,
            forall|k: int|
                0 <= k < regex@.len() ==> regex_compiles((#[trigger] regex@[k]).0@)
                    && regex@[k].1.wf(),
            regexes_error(props.regex@.take(j as int)) is None,
            regex_view(regex@) == compiled_regexes(props.regex@.take(j as int)),
        decreases props.regex@.len() - j,
    {
        proof {
            assert(props.regex@.take(j + 1).drop_last() =~= props.regex@.take(j as int));
            assert(props.regex@.take(j + 1).last() == props.regex@[j as int]);
        }
        match mk_entry_match(&props.regex[j]) {
            Ok((key, m)) => {
                if !compiles(key.as_str()) {
                    proof {
                        lemma_regexes_error_prefix(props.regex@, j + 1);
                    }
                    return Err(WafError::InvalidPattern(key));
                }
                let ghost before = regex_view(regex@);
                let ghost added = (key@, m@);
                regex.push((key, m));
                assert(regex_view(regex@) =~= before.push(added));
                assert(compiled_regexes(props.regex@.take(j + 1)) =~= compiled_regexes(
                    props.regex@.take(j as int),
                ).push(added));
            },
            Err(e) => {
                proof {
                    lemma_regexes_error_prefix(props.regex@, j + 1);
                }
                return Err(e);
            },
        }
        j += 1;
    }
    proof {
        assert(props.regex@.take(props.regex@.len() as int) =~= props.regex@);
    }
    Ok(WafSection { max_count, max_length, names, regex })
}

/// An error among the first matchers by name is the error of the whole list.
pub proof fn lemma_names_error_prefix(entries: Seq<RawWafEntryMatch>, n: int)
    requires
        0 <= n <= entries.len(),
        names_error(entries.take(n)) is Some,
    ensures
        names_error(entries) == names_error(entries.take(n)),
    decreases entries.len() - n,
{
    if n < entries.len() {
        assert(entries.take(n + 1).drop_last() =~= entries.take(n));
        lemma_names_error_prefix(entries, n + 1);
    } else {
        assert(entries.take(n) =~= entries);
    }
}

/// An error among the first matchers by pattern is the error of the whole list.
pub proof fn lemma_regexes_error_prefix(entries: Seq<RawWafEntryMatch>, n: int)
    requires
        0 <= n <= entries.len(),
        regexes_error(entries.take(n)) is Some,
    ensures
        regexes_error(entries) == regexes_error(entries.take(n)),
    decreases entries.len() - n,
{
    if n < entries.len() {
        assert(entries.take(n + 1).drop_last() =~= entries.take(n));
        lemma_regexes_error_prefix(entries, n + 1);
    } else {
        assert(entries.take(n) =~= entries);
    }
}

/// Compiles one profile: its id and the profile. A profile with a pattern that does not
/// compile is refused as a whole.
pub fn convert_entry(entry: &RawWafProfile) -> (r: Result<(String, WafProfile), WafError>)
    ensures
        match r {
            Ok((id, p)) => profile_error(entry) is None && id@ == entry.id@ && p@
                == compiled_profile(entry) && p.wf(),
            Err(e) => profile_error(entry) == Some(e.pattern()),
        },
{
    let headers = match mk_section(
        &entry.headers,
        entry.max_header_length,
        entry.max_headers_count,
    ) {
        Ok(s) => s,
        Err(e) => {
            return Err(e);
        },
    };
    let cookies = match mk_section(
        &entry.cookies,
        entry.max_cookie_length,
        entry.max_cookies_count,
    ) {
        Ok(s) => s,
        Err(e) => {
            return Err(e);
        },
    };
    let args = match mk_section(&entry.args, entry.max_arg_length, entry.max_args_count) {
        Ok(s) => s,
        Err(e) => {
            return Err(e);
        },
    };
    let path = match mk_section(&entry.path, entry.max_arg_length, entry.max_args_count) {
        Ok(s) => s,
        Err(e) => {
            return Err(e);
        },
    };
    let mut decoding: Vec<Transformation> = Vec::new();
    decoding.push(Transformation::Base64Decode);
    decoding.push(Transformation::UrlDecode);
    decoding.push(Transformation::HtmlEntitiesDecode);
    decoding.push(Transformation::UnicodeDecode);
    assert(decoding@ =~= Transformation::configured_policy());
    Ok(
        (
            entry.id.clone(),
            WafProfile {
                id: entry.id.clone(),
                name: entry.name.clone(),
                ignore_alphanum: entry.ignore_alphanum,
                sections: Section { headers, cookies, args, path },
                decoding,
            },
        ),
    )
}

impl WafProfile {
    /// Compiles every profile; the result holds those that compile, each under its id.
    /// For each profile that does not compile, an error is recorded and the load goes on.
    pub fn resolve(logs: &mut Logs, raw: Vec<RawWafProfile>) -> (out: StrMap<WafProfile>)
        ensures
            out@ == compiled_profiles(raw@),
            forall|i: int| 0 <= i < out.entries@.len() ==> (#[trigger] out.entries@[i]).1.wf(),
            final(logs)@ == old(logs)@ + dropped_profiles(raw@),
    {
        let mut out: StrMap<WafProfile> = StrMap::new();
        let mut i: usize = 0;
        proof {
            assert(logs@ =~= old(logs)@ + dropped_profiles(raw@.take(0)));
        }
        while i < raw.len()
            invariant
                i <= raw@.len(),
                out@ == compiled_profiles(raw@.take(i as int)),
                forall|k: int| 0 <= k < out.entries@.len() ==> (#[trigger] out.entries@[k]).1.wf(),
                logs@ == old(logs)@ + dropped_profiles(raw@.take(i as int)),
            decreases raw@.len() - i,
        {
            proof {
                assert(raw@.take(i + 1).drop_last() =~= raw@.take(i as int));
                assert(raw@.take(i + 1).last() == raw@[i as int]);
            }
            let ghost before = logs@;
            match convert_entry(&raw[i]) {
                Ok((k, v)) => {
                    out.insert(k, v);
                },
                Err(WafError::InvalidPattern(p)) => {
                    let head = joined("waf id ", raw[i].id.as_str());
                    let middle = joined(head.as_str(), ": invalid pattern ");
                    let message = joined(middle.as_str(), p.as_str());
                    logs.error(message);
                    assert(logs@ =~= old(logs)@ + dropped_profiles(raw@.take(i + 1)));
                },
            }
            i += 1;
        }
        proof {
            assert(raw@.take(raw@.len() as int) =~= raw@);
        }
        out
    }
}

/// A set of signatures that are scanned for together.
#[derive(Debug)]
pub struct WafSignatures {
    pub ids: Vec<WafSignature>,
}

impl WafSignatures {
    /// Every operand compiles.
    pub open spec fn wf(&self) -> bool {
        forall|i: int| 0 <= i < self.ids@.len() ==> signature_compiles((#[trigger] self.ids@[i]).operand@)
    }
}

/// The operand of the first signature that does not compile.
pub open spec fn signatures_error(raws: Seq<WafSignature>) -> Option<Seq<char>>
    decreases raws.len(),
{
    if raws.len() == 0 {
        None
    } else {
        match signatures_error(raws.drop_last()) {
            Some(p) => Some(p),
            None => if signature_compiles(raws.last().operand@) {
                None
            } else {
                Some(raws.last().operand@)
            },
        }
    }
}

/// An error among the first signatures is the error of the whole list.
pub proof fn lemma_signatures_error_prefix(raws: Seq<WafSignature>, n: int)
    requires
        0 <= n <= raws.len(),
        signatures_error(raws.take(n)) is Some,
    ensures
        signatures_error(raws) == signatures_error(raws.take(n)),
    decreases raws.len() - n,
{
    if n < raws.len() {
        assert(raws.take(n + 1).drop_last() =~= raws.take(n));
        lemma_signatures_error_prefix(raws, n + 1);
    } else {
        assert(raws.take(n) =~= raws);
    }
}

impl WafSignatures {
    /// The set without signatures.
    pub fn empty() -> (s: Self)
        ensures
            s.ids@ == Seq::<WafSignature>::empty(),
            s.wf(),
    {
        WafSignatures { ids: Vec::new() }
    }
}

/// Tells whether the operand of a signature compiles under the flags of a signature set.
pub fn convert_signature(entry: &WafSignature) -> (r: Result<(), WafError>)
    ensures
        match r {
            Ok(_) => signature_compiles(entry.operand@),
            Err(e) => !signature_compiles(entry.operand@) && e.pattern() == entry.operand@,
        },
{
    if compiles_as_signature(entry.operand.as_str()) {
        Ok(())
    } else {
        Err(WafError::InvalidPattern(entry.operand.clone()))
    }
}

/// Compiles a set of signatures. The set is accepted as a whole or not at all: one
/// signature that does not compile fails the load.
///
/// A signature compiles where the `regex` crate accepts its operand under the flags of a
/// signature set. A scanner of another make may still refuse a set that is accepted
/// here, when its database is built.
pub fn resolve_signatures(raws: Vec<WafSignature>) -> (r: Result<WafSignatures, WafError>)
    ensures
        match r {
            Ok(s) => signatures_error(raws@) is None && s.ids@ == raws@ && s.wf(),
            Err(e) => signatures_error(raws@) == Some(e.pattern()),
        },
{
    let mut i: usize = 0;
    while i < raws.len()
        invariant
            i <= raws@.len(),
            signatures_error(raws@.take(i as int)) is None,
            forall|k: int| 0 <= k < i ==> signature_compiles((#[trigger] raws@[k]).operand@),
        decreases raws@.len() - i,
    {
        proof {
            assert(raws@.take(i + 1).drop_last() =~= raws@.take(i as int));
            assert(raws@.take(i + 1).last() == raws@[i as int]);
        }
        match convert_signature(&raws[i]) {
            Ok(_) => {},
            Err(e) => {
                proof {
                    lemma_signatures_error_prefix(raws@, i + 1);
                }
                return Err(e);
            },
        }
        i += 1;
    }
    proof {
        assert(raws@.take(raws@.len() as int) =~= raws@);
    }
    Ok(WafSignatures { ids: raws })
}

} // verus!
