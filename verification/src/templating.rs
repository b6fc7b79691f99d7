//! Templates for response headers, and the request values they select.

use crate::json::{json_quote, json_string};
use crate::location::LocationSet;
use crate::request::{opt_text, RequestInfo};
use crate::strings::{decimal, decimal_string, str_eq};
use crate::tags::Tags;
use vstd::prelude::*;
use vstd::std_specs::cmp::PartialEqSpecImpl;

verus! {

/// A value of the request that a rule or a template can name.
#[derive(Debug)]
pub enum RequestSelector {
    Args(String),
    Header(String),
    Cookie(String),
    Plugins(String),
    Ip,
    Uri,
    Path,
    Query,
    Method,
    Country,
    Authority,
    Company,
    Tags,
    SecpolId,
    SecpolEntryId,
    Region,
    SubRegion,
    Session,
    Asn,
}

/// What a [`RequestSelector`] says.
pub enum RequestSelectorView {
    Args(Seq<char>),
    Header(Seq<char>),
    Cookie(Seq<char>),
    Plugins(Seq<char>),
    Ip,
    Uri,
    Path,
    Query,
    Method,
    Country,
    Authority,
    Company,
    Tags,
    SecpolId,
    SecpolEntryId,
    Region,
    SubRegion,
    Session,
    Asn,
}

impl View for RequestSelector {
    type V = RequestSelectorView;

    open spec fn view(&self) -> RequestSelectorView {
        match self {
            RequestSelector::Args(k) => RequestSelectorView::Args(k@),
            RequestSelector::Header(k) => RequestSelectorView::Header(k@),
            RequestSelector::Cookie(k) => RequestSelectorView::Cookie(k@),
            RequestSelector::Plugins(k) => RequestSelectorView::Plugins(k@),
            RequestSelector::Ip => RequestSelectorView::Ip,
            RequestSelector::Uri => RequestSelectorView::Uri,
            RequestSelector::Path => RequestSelectorView::Path,
            RequestSelector::Query => RequestSelectorView::Query,
            RequestSelector::Method => RequestSelectorView::Method,
            RequestSelector::Country => RequestSelectorView::Country,
            RequestSelector::Authority => RequestSelectorView::Authority,
            RequestSelector::Company => RequestSelectorView::Company,
            RequestSelector::Tags => RequestSelectorView::Tags,
            RequestSelector::SecpolId => RequestSelectorView::SecpolId,
            RequestSelector::SecpolEntryId => RequestSelectorView::SecpolEntryId,
            RequestSelector::Region => RequestSelectorView::Region,
            RequestSelector::SubRegion => RequestSelectorView::SubRegion,
            RequestSelector::Session => RequestSelectorView::Session,
            RequestSelector::Asn => RequestSelectorView::Asn,
        }
    }
}

impl Clone for RequestSelector {
    fn clone(&self) -> (r: Self)
        ensures
            r@ == self@,
    {
        match self {
            RequestSelector::Args(k) => RequestSelector::Args(k.clone()),
            RequestSelector::Header(k) => RequestSelector::Header(k.clone()),
            RequestSelector::Cookie(k) => RequestSelector::Cookie(k.clone()),
            RequestSelector::Plugins(k) => RequestSelector::Plugins(k.clone()),
            RequestSelector::Ip => RequestSelector::Ip,
            RequestSelector::Uri => RequestSelector::Uri,
            RequestSelector::Path => RequestSelector::Path,
            RequestSelector::Query => RequestSelector::Query,
            RequestSelector::Method => RequestSelector::Method,
            RequestSelector::Country => RequestSelector::Country,
            RequestSelector::Authority => RequestSelector::Authority,
            RequestSelector::Company => RequestSelector::Company,
            RequestSelector::Tags => RequestSelector::Tags,
            RequestSelector::SecpolId => RequestSelector::SecpolId,
            RequestSelector::SecpolEntryId => RequestSelector::SecpolEntryId,
            RequestSelector::Region => RequestSelector::Region,
            RequestSelector::SubRegion => RequestSelector::SubRegion,
            RequestSelector::Session => RequestSelector::Session,
            RequestSelector::Asn => RequestSelector::Asn,
        }
    }
}

impl PartialEq for RequestSelector {
    fn eq(&self, other: &RequestSelector) -> (r: bool) {
        match (self, other) {
            (RequestSelector::Args(a), RequestSelector::Args(b)) => str_eq(a.as_str(), b.as_str()),
            (RequestSelector::Header(a), RequestSelector::Header(b)) => str_eq(
                a.as_str(),
                b.as_str(),
            ),
            (RequestSelector::Cookie(a), RequestSelector::Cookie(b)) => str_eq(
                a.as_str(),
                b.as_str(),
            ),
            (RequestSelector::Plugins(a), RequestSelector::Plugins(b)) => str_eq(
                a.as_str(),
                b.as_str(),
            ),
            (RequestSelector::Ip, RequestSelector::Ip) => true,
            (RequestSelector::Uri, RequestSelector::Uri) => true,
            (RequestSelector::Path, RequestSelector::Path) => true,
            (RequestSelector::Query, RequestSelector::Query) => true,
            (RequestSelector::Method, RequestSelector::Method) => true,
            (RequestSelector::Country, RequestSelector::Country) => true,
            (RequestSelector::Authority, RequestSelector::Authority) => true,
            (RequestSelector::Company, RequestSelector::Company) => true,
            (RequestSelector::Tags, RequestSelector::Tags) => true,
            (RequestSelector::SecpolId, RequestSelector::SecpolId) => true,
            (RequestSelector::SecpolEntryId, RequestSelector::SecpolEntryId) => true,
            (RequestSelector::Region, RequestSelector::Region) => true,
            (RequestSelector::SubRegion, RequestSelector::SubRegion) => true,
            (RequestSelector::Session, RequestSelector::Session) => true,
            (RequestSelector::Asn, RequestSelector::Asn) => true,
            _ => false,
        }
    }
}

impl PartialEqSpecImpl for RequestSelector {
    open spec fn obeys_eq_spec() -> bool {
        true
    }

    open spec fn eq_spec(&self, other: &RequestSelector) -> bool {
        self@ == other@
    }
}

impl Eq for RequestSelector {

}

/// What a template variable stands for: a selected value, or whether a tag is set.
#[derive(Debug)]
pub enum TVar {
    Selector(RequestSelector),
    Tag(String),
}

pub enum TVarView {
    Selector(RequestSelectorView),
    Tag(Seq<char>),
}

impl View for TVar {
    type V = TVarView;

    open spec fn view(&self) -> TVarView {
        match self {
            TVar::Selector(s) => TVarView::Selector(s@),
            TVar::Tag(t) => TVarView::Tag(t@),
        }
    }
}

/// One part of a template: text to copy, or a variable to fill in.
#[derive(Debug)]
pub enum TemplatePart {
    Raw(String),
    Var(TVar),
}

pub enum TemplatePartView {
    Raw(Seq<char>),
    Var(TVarView),
}

impl View for TemplatePart {
    type V = TemplatePartView;

    open spec fn view(&self) -> TemplatePartView {
        match self {
            TemplatePart::Raw(s) => TemplatePartView::Raw(s@),
            TemplatePart::Var(v) => TemplatePartView::Var(v@),
        }
    }
}

impl Clone for TemplatePart {
    fn clone(&self) -> (r: Self)
        ensures
            r@ == self@,
    {
        match self {
            TemplatePart::Raw(s) => TemplatePart::Raw(s.clone()),
            TemplatePart::Var(TVar::Selector(s)) => TemplatePart::Var(TVar::Selector(s.clone())),
            TemplatePart::Var(TVar::Tag(t)) => TemplatePart::Var(TVar::Tag(t.clone())),
        }
    }
}

impl PartialEq for TemplatePart {
    fn eq(&self, other: &TemplatePart) -> (r: bool) {
        match (self, other) {
            (TemplatePart::Raw(a), TemplatePart::Raw(b)) => str_eq(a.as_str(), b.as_str()),
            (TemplatePart::Var(TVar::Tag(a)), TemplatePart::Var(TVar::Tag(b))) => str_eq(
                a.as_str(),
                b.as_str(),
            ),
            (TemplatePart::Var(TVar::Selector(a)), TemplatePart::Var(TVar::Selector(b))) => *a
                == *b,
            _ => false,
        }
    }
}

impl PartialEqSpecImpl for TemplatePart {
    open spec fn obeys_eq_spec() -> bool {
        true
    }

    open spec fn eq_spec(&self, other: &TemplatePart) -> bool {
        self@ == other@
    }
}

impl Eq for TemplatePart {

}

/// A parsed header template: its parts, in order.
#[derive(Debug)]
pub struct RequestTemplate {
    pub parts: Vec<TemplatePart>,
}

impl View for RequestTemplate {
    type V = Seq<TemplatePartView>;

    open spec fn view(&self) -> Seq<TemplatePartView> {
        Seq::new(self.parts@.len(), |i: int| self.parts@[i]@)
    }
}

impl Clone for RequestTemplate {
    fn clone(&self) -> (r: Self)
        ensures
            r@ == self@,
    {
        let mut parts: Vec<TemplatePart> = Vec::new();
        let mut i: usize = 0;
        while i < self.parts.len()
            invariant
                i <= self.parts@.len(),
                parts@.len() == i,
                forall|j: int| 0 <= j < i ==> (#[trigger] parts@[j])@ == self.parts@[j]@,
            decreases self.parts@.len() - i,
        {
            parts.push(self.parts[i].clone());
            i += 1;
        }
        let r = RequestTemplate { parts };
        assert(r@ =~= self@);
        r
    }
}

impl PartialEq for RequestTemplate {
    fn eq(&self, other: &RequestTemplate) -> (r: bool) {
        if self.parts.len() != other.parts.len() {
            assert(self@.len() != other@.len());
            return false;
        }
        let mut i: usize = 0;
        while i < self.parts.len()
            invariant
                i <= self.parts@.len(),
                self.parts@.len() == other.parts@.len(),
                forall|j: int| 0 <= j < i ==> (#[trigger] self.parts@[j])@ == other.parts@[j]@,
            decreases self.parts@.len() - i,
        {
            if !(self.parts[i] == other.parts[i]) {
                assert(self@[i as int] != other@[i as int]);
                return false;
            }
            i += 1;
        }
        assert(self@ =~= other@);
        true
    }
}

impl PartialEqSpecImpl for RequestTemplate {
    open spec fn obeys_eq_spec() -> bool {
        true
    }

    open spec fn eq_spec(&self, other: &RequestTemplate) -> bool {
        self@ == other@
    }
}

impl Eq for RequestTemplate {

}

/// The names of `entries` as JSON string literals, separated by commas.
pub open spec fn json_names(entries: Seq<(String, LocationSet)>) -> Seq<char>
    decreases entries.len(),
{
    if entries.len() == 0 {
        Seq::empty()
    } else if entries.len() == 1 {
        json_string(entries[0].0@)
    } else {
        json_names(entries.drop_last()) + ","@ + json_string(entries.last().0@)
    }
}

/// The tag set as JSON: the list of the tag names, in the order they were set.
pub open spec fn tags_json(tags: &Tags) -> Seq<char> {
    "["@ + json_names(tags.map.entries@) + "]"@
}

/// The value of the request that `sel` names, as text; none where the request has no
/// such value.
pub open spec fn selected(rinfo: &RequestInfo, sel: RequestSelectorView, tags: &Tags) -> Option<
    Seq<char>,
> {
    match sel {
        RequestSelectorView::Args(k) => if rinfo.rinfo.qinfo.args@.contains_key(k) {
            Some(rinfo.rinfo.qinfo.args@[k])
        } else {
            None
        },
        RequestSelectorView::Header(k) => if rinfo.headers@.contains_key(k) {
            Some(rinfo.headers@[k])
        } else {
            None
        },
        RequestSelectorView::Cookie(k) => if rinfo.cookies@.contains_key(k) {
            Some(rinfo.cookies@[k])
        } else {
            None
        },
        RequestSelectorView::Plugins(k) => if rinfo.plugins@.contains_key(k) {
            Some(rinfo.plugins@[k])
        } else {
            None
        },
        RequestSelectorView::Ip => Some(rinfo.rinfo.geoip.ipstr@),
        RequestSelectorView::Uri => Some(rinfo.rinfo.qinfo.uri@),
        RequestSelectorView::Path => Some(rinfo.rinfo.qinfo.qpath@),
        RequestSelectorView::Query => Some(rinfo.rinfo.qinfo.query@),
        RequestSelectorView::Method => Some(rinfo.rinfo.meta.method@),
        RequestSelectorView::Country => opt_text(rinfo.rinfo.geoip.country_iso),
        RequestSelectorView::Authority => Some(rinfo.rinfo.host@),
        RequestSelectorView::Company => opt_text(rinfo.rinfo.geoip.company),
        RequestSelectorView::Tags => Some(tags_json(tags)),
        RequestSelectorView::SecpolId => Some(rinfo.rinfo.secpolicy.policy_id@),
        RequestSelectorView::SecpolEntryId => Some(rinfo.rinfo.secpolicy.entry_id@),
        RequestSelectorView::Region => opt_text(rinfo.rinfo.geoip.region),
        RequestSelectorView::SubRegion => opt_text(rinfo.rinfo.geoip.subregion),
        RequestSelectorView::Session => Some(rinfo.session@),
        RequestSelectorView::Asn => match rinfo.rinfo.geoip.asn {
            Some(n) => Some(decimal(n as nat)),
            None => None,
        },
    }
}

/// What one part of a template renders to: raw text as it is, a tag as `true` or `false`,
/// a selected value as its text, or `nil` where the request has none.
pub open spec fn rendered_part(rinfo: &RequestInfo, tags: &Tags, part: TemplatePartView) -> Seq<
    char,
> {
    match part {
        TemplatePartView::Raw(s) => s,
        TemplatePartView::Var(TVarView::Tag(name)) => if tags@.contains_key(name) {
            "true"@
        } else {
            "false"@
        },
        TemplatePartView::Var(TVarView::Selector(sel)) => match selected(rinfo, sel, tags) {
            Some(s) => s,
            None => "nil"@,
        },
    }
}

/// What a template renders to: its parts, rendered and joined.
pub open spec fn rendered(rinfo: &RequestInfo, tags: &Tags, parts: Seq<TemplatePartView>) -> Seq<
    char,
>
    decreases parts.len(),
{
    if parts.len() == 0 {
        Seq::empty()
    } else {
        rendered(rinfo, tags, parts.drop_last()) + rendered_part(rinfo, tags, parts.last())
    }
}

fn clone_opt(o: &Option<String>) -> (r: Option<String>)
    ensures
        opt_text(r) == opt_text(*o),
{
    match o {
        Some(s) => Some(s.clone()),
        None => None,
    }
}

fn clone_found(o: Option<&String>) -> (r: Option<String>)
    ensures
        match o {
            Some(s) => r matches Some(t) && t@ == s@,
            None => r is None,
        },
{
    match o {
        Some(s) => Some(s.clone()),
        None => None,
    }
}

/// Writes the tag set as JSON.
pub fn tags_to_json(tags: &Tags) -> (r: String)
    ensures
        r@ == tags_json(tags),
{
    let mut names = String::new();
    let mut i: usize = 0;
    let ghost all = tags.map.entries@;
    while i < tags.map.entries.len()
        invariant
            i <= all.len(),
            all == tags.map.entries@,
            names@ == json_names(all.take(i as int)),
        decreases all.len() - i,
    {
        proof {
            assert(all.take(i + 1).drop_last() =~= all.take(i as int));
            assert(all.take(i + 1).last() == all[i as int]);
            assert(all.take(i + 1)[0] == all[0]);
        }
        if i > 0 {
            names.append(",");
        }
        let quoted = json_quote(tags.map.entries[i].0.as_str());
        names.append(quoted.as_str());
        proof {
            if i == 0 {
                assert(names@ =~= json_string(all[0].0@));
            }
        }
        i += 1;
    }
    proof {
        assert(all.take(all.len() as int) =~= all);
    }
    let mut out = "[".to_string();
    out.append(names.as_str());
    out.append("]");
    out
}

/// The value of the request that `sel` names.
pub fn selector(rinfo: &RequestInfo, sel: &RequestSelector, tags: &Tags) -> (r: Option<String>)
    ensures
        opt_text(r) == selected(rinfo, sel@, tags),
{
    match sel {
        RequestSelector::Args(k) => clone_found(rinfo.rinfo.qinfo.args.get(k.as_str())),
        RequestSelector::Header(k) => clone_found(rinfo.headers.get(k.as_str())),
        RequestSelector::Cookie(k) => clone_found(rinfo.cookies.get(k.as_str())),
        RequestSelector::Plugins(k) => clone_found(rinfo.plugins.get(k.as_str())),
        RequestSelector::Ip => Some(rinfo.rinfo.geoip.ipstr.clone()),
        RequestSelector::Uri => Some(rinfo.rinfo.qinfo.uri.clone()),
        RequestSelector::Path => Some(rinfo.rinfo.qinfo.qpath.clone()),
        RequestSelector::Query => Some(rinfo.rinfo.qinfo.query.clone()),
        RequestSelector::Method => Some(rinfo.rinfo.meta.method.clone()),
        RequestSelector::Country => clone_opt(&rinfo.rinfo.geoip.country_iso),
        RequestSelector::Authority => Some(rinfo.rinfo.host.clone()),
        RequestSelector::Company => clone_opt(&rinfo.rinfo.geoip.company),
        RequestSelector::Tags => Some(tags_to_json(tags)),
        RequestSelector::SecpolId => Some(rinfo.rinfo.secpolicy.policy_id.clone()),
        RequestSelector::SecpolEntryId => Some(rinfo.rinfo.secpolicy.entry_id.clone()),
        RequestSelector::Region => clone_opt(&rinfo.rinfo.geoip.region),
        RequestSelector::SubRegion => clone_opt(&rinfo.rinfo.geoip.subregion),
        RequestSelector::Session => Some(rinfo.session.clone()),
        RequestSelector::Asn => match rinfo.rinfo.geoip.asn {
            Some(n) => Some(decimal_string(n as u64)),
            None => None,
        },
    }
}

/// Renders a template against a request and its tags.
pub fn render_template(rinfo: &RequestInfo, tags: &Tags, template: &RequestTemplate) -> (out:
    String)
    ensures
        out@ == rendered(rinfo, tags, template@),
{
    let mut out = String::new();
    let ghost all = template@;
    let mut i: usize = 0;
    while i < template.parts.len()
        invariant
            i <= template.parts@.len(),
            all == template@,
            out@ == rendered(rinfo, tags, all.take(i as int)),
        decreases template.parts@.len() - i,
    {
        proof {
            assert(all.take(i + 1).drop_last() =~= all.take(i as int));
            assert(all.take(i + 1).last() == template.parts@[i as int]@);
        }
        match &template.parts[i] {
            TemplatePart::Raw(s) => out.append(s.as_str()),
            TemplatePart::Var(TVar::Tag(tagname)) => {
                out.append(
                    if tags.contains(tagname.as_str()) {
                        "true"
                    } else {
                        "false"
                    },
                )
            },
            TemplatePart::Var(TVar::Selector(sel)) => match selector(rinfo, sel, tags) {
                None => out.append("nil"),
                Some(s) => out.append(s.as_str()),
            },
        }
        i += 1;
    }
    proof {
        assert(all.take(all.len() as int) =~= all);
    }
    out
}

} // verus!
