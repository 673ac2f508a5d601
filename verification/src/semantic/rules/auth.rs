//! How a workload authenticates its callers, read from its containers' environment.

use vstd::prelude::*;
use vstd::string::StringExecFns;
use crate::semantic::observation::{ObservationValue, ObservationValueView};
use crate::semantic::rule::{Rule, RuleMeta, RuleObservation, RuleObservationView};
use crate::semantic::rule_id::{RuleId, auth_mode_id};
use crate::semantic::rules::persistence::{is_templated_workload_kind, templated_workload_kind};
use crate::semantic::signal::SignalCategory;
use crate::snapshot::{SnapshotDocument, spec_display_name, spec_is_kind, spec_kind};
use crate::text::{char_code, upper_code, chars_of, lower_contains, lower_has, upper_equals, upper_has_prefix, upper_is,
    upper_starts_with, string_is};
use crate::yaml::{YamlValue, spec_as_str, spec_mapping_get, spec_sequence_at_path, path_view,
    as_str, mapping_get};

verus! {

/// Observes the authentication mode: `oidc`, `basic`, `none` or `unknown`.
pub struct AuthModeRule;

/// The containers of a workload: a Pod's `spec.containers`, a templated
/// workload's `spec.template.spec.containers`, a CronJob's job template containers.
pub open spec fn spec_workload_containers(d: SnapshotDocument) -> Option<Seq<YamlValue>> {
    if spec_is_kind(d, "Pod"@) {
        spec_sequence_at_path(d.spec_value(), seq!["spec"@, "containers"@])
    } else if spec_kind(d) matches Some(k) && is_templated_workload_kind(k) {
        spec_sequence_at_path(d.spec_value(), seq!["spec"@, "template"@, "spec"@, "containers"@])
    } else if spec_kind(d) == Some("CronJob"@) {
        spec_sequence_at_path(d.spec_value(),
            seq!["spec"@, "jobTemplate"@, "spec"@, "template"@, "spec"@, "containers"@])
    } else {
        None
    }
}

/// The `env` list of a container mapping, when it is a list.
pub open spec fn spec_env_items(container: YamlValue) -> Option<Seq<YamlValue>> {
    match container {
        YamlValue::Mapping(entries) => match spec_mapping_get(entries@, "env"@) {
            Some(YamlValue::Sequence(items)) => Some(items@),
            _ => None,
        },
        _ => None,
    }
}

/// The `name` and `value` of an environment entry; entries without a string
/// name are skipped.
pub open spec fn spec_env_name_and_value(item: YamlValue) -> Option<(Seq<char>, Option<Seq<char>>)> {
    match item {
        YamlValue::Mapping(entries) => match spec_mapping_get(entries@, "name"@) {
            Some(name_value) => match spec_as_str(name_value) {
                Some(name) => Some((name, match spec_mapping_get(entries@, "value"@) {
                    Some(v) => spec_as_str(v),
                    None => None,
                })),
                None => None,
            },
            None => None,
        },
        _ => None,
    }
}

/// The `(name, value)` pairs of a list of environment entries.
pub open spec fn item_pairs(items: Seq<YamlValue>) -> Seq<(Seq<char>, Option<Seq<char>>)>
    decreases items.len(),
{
    if items.len() == 0 {
        Seq::empty()
    } else {
        match spec_env_name_and_value(items[0]) {
            Some(pair) => seq![pair] + item_pairs(items.drop_first()),
            None => item_pairs(items.drop_first()),
        }
    }
}

/// The pairs of one container.
pub open spec fn container_pairs(container: YamlValue) -> Seq<(Seq<char>, Option<Seq<char>>)> {
    match spec_env_items(container) {
        Some(items) => item_pairs(items),
        None => Seq::empty(),
    }
}

/// The pairs of the containers from position `from` on, in order.
pub open spec fn pairs_from(containers: Seq<YamlValue>, from: int) -> Seq<(Seq<char>, Option<Seq<char>>)>
    decreases containers.len() - from,
{
    if from < 0 || from >= containers.len() {
        Seq::empty()
    } else {
        container_pairs(containers[from]) + pairs_from(containers, from + 1)
    }
}

/// The variable-name prefix that marks OIDC settings.
pub open spec fn oidc_prefix() -> Seq<char> { seq!['O', 'I', 'D', 'C', '_'] }
/// The variable that names the authentication mode.
pub open spec fn auth_mode_name() -> Seq<char> { seq!['A', 'U', 'T', 'H', '_', 'M', 'O', 'D', 'E'] }
/// The variable that names the authentication provider.
pub open spec fn auth_provider_name() -> Seq<char> {
    seq!['A', 'U', 'T', 'H', '_', 'P', 'R', 'O', 'V', 'I', 'D', 'E', 'R']
}
/// A value word that means OIDC.
pub open spec fn oidc_word() -> Seq<char> { seq!['o', 'i', 'd', 'c'] }
/// A value word that means OpenID Connect.
pub open spec fn openid_word() -> Seq<char> { seq!['o', 'p', 'e', 'n', 'i', 'd'] }
/// A value word that means basic authentication.
pub open spec fn basic_word() -> Seq<char> { seq!['b', 'a', 's', 'i', 'c'] }
/// A value word that means no authentication.
pub open spec fn none_word() -> Seq<char> { seq!['n', 'o', 'n', 'e'] }

/// The value, lower-cased, contains `word`.
pub open spec fn value_mentions(value: Option<Seq<char>>, word: Seq<char>) -> bool {
    value matches Some(v) && lower_contains(v, word)
}

/// An entry points at OIDC: its name starts with `OIDC_`, or its value
/// mentions `oidc` or `openid` (names upper-cased, values lower-cased in ASCII).
pub open spec fn is_oidc_hint(name: Seq<char>, value: Option<Seq<char>>) -> bool {
    upper_starts_with(name, oidc_prefix()) || value_mentions(value, oidc_word())
        || value_mentions(value, openid_word())
}

/// An entry names the authentication setting: `AUTH_MODE` or `AUTH_PROVIDER`.
pub open spec fn is_auth_setting(name: Seq<char>) -> bool {
    upper_equals(name, auth_mode_name()) || upper_equals(name, auth_provider_name())
}

/// What one entry decides on its own: `Some(mode)` ends the scan; `None`
/// goes on, remembering whether an `AUTH_MODE`/`AUTH_PROVIDER` entry was seen.
pub open spec fn entry_step(pair: (Seq<char>, Option<Seq<char>>), seen: bool) -> (Option<Seq<char>>, bool) {
    let (name, value) = pair;
    if is_oidc_hint(name, value) {
        (Some("oidc"@), seen)
    } else if is_auth_setting(name) {
        if value_mentions(value, oidc_word()) || value_mentions(value, openid_word()) {
            (Some("oidc"@), true)
        } else if value_mentions(value, basic_word()) {
            (Some("basic"@), true)
        } else if value_mentions(value, none_word()) {
            (Some("none"@), true)
        } else {
            (None, true)
        }
    } else {
        (None, seen)
    }
}

/// The authentication mode the pairs decide, scanning in order: the first
/// OIDC hint decides `oidc`; an `AUTH_MODE`/`AUTH_PROVIDER` entry whose value
/// mentions `basic` decides `basic`, one that mentions `none` decides `none`;
/// past the end, `unknown` if such an entry was seen, else `none`.
pub open spec fn spec_auth_decision(pairs: Seq<(Seq<char>, Option<Seq<char>>)>, seen: bool) -> Seq<char>
    decreases pairs.len(),
{
    if pairs.len() == 0 {
        if seen { "unknown"@ } else { "none"@ }
    } else {
        match entry_step(pairs[0], seen) {
            (Some(mode), _) => mode,
            (None, seen_after) => spec_auth_decision(pairs.drop_first(), seen_after),
        }
    }
}

proof fn lemma_decision_step(pair: (Seq<char>, Option<Seq<char>>), tail: Seq<(Seq<char>, Option<Seq<char>>)>, seen: bool)
    ensures
        spec_auth_decision(seq![pair] + tail, seen) == match entry_step(pair, seen) {
            (Some(mode), _) => mode,
            (None, seen_after) => spec_auth_decision(tail, seen_after),
        },
{
    assert((seq![pair] + tail).drop_first() =~= tail);
    assert((seq![pair] + tail)[0] == pair);
}

/// The authentication mode of a list of containers.
pub open spec fn spec_auth_mode(containers: Seq<YamlValue>) -> Seq<char> {
    spec_auth_decision(pairs_from(containers, 0), false)
}

/// The word used in descriptions: `no` for the mode `none`.
pub open spec fn spec_auth_description_word(mode: Seq<char>) -> Seq<char> {
    if mode == "none"@ { "no"@ } else { mode }
}

/// What the authentication rule says about itself.
pub open spec fn spec_auth_meta() -> RuleMeta {
    RuleMeta {
        id: auth_mode_id(),
        category: SignalCategory::Authentication,
        title: "Authentication mode",
        rationale: "Authentication drift changes who can access the workload and how identity is enforced.",
    }
}

/// What the authentication rule observes of a document.
pub open spec fn spec_auth_observation(d: SnapshotDocument) -> Option<RuleObservationView> {
    match spec_workload_containers(d) {
        Some(containers) => {
            let mode = spec_auth_mode(containers);
            Some(RuleObservationView {
                value: ObservationValueView::Keyword(mode),
                description: spec_display_name(d) + " uses "@ + spec_auth_description_word(mode)
                    + " authentication"@,
            })
        },
        None => None,
    }
}

fn workload_containers(document: &SnapshotDocument) -> (r: Option<&Vec<YamlValue>>)
    ensures
        r is Some <==> spec_workload_containers(*document) is Some,
        r matches Some(items) ==> spec_workload_containers(*document) == Some(items@),
{
    if document.is_kind("Pod") {
        let path = ["spec", "containers"];
        assert(path_view(path@) == seq!["spec"@, "containers"@]);
        return document.sequence_at_path(&path);
    }
    match document.kind() {
        Some(kind) => {
            if templated_workload_kind(kind) {
                let path = ["spec", "template", "spec", "containers"];
                assert(path_view(path@) == seq!["spec"@, "template"@, "spec"@, "containers"@]);
                return document.sequence_at_path(&path);
            }
            if string_is(kind, "CronJob") {
                let path = ["spec", "jobTemplate", "spec", "template", "spec", "containers"];
                assert(path_view(path@)
                    == seq!["spec"@, "jobTemplate"@, "spec"@, "template"@, "spec"@, "containers"@]);
                return document.sequence_at_path(&path);
            }
            None
        },
        None => None,
    }
}

fn env_items(container: &YamlValue) -> (r: Option<&Vec<YamlValue>>)
    ensures
        r is Some <==> spec_env_items(*container) is Some,
        r matches Some(items) ==> spec_env_items(*container) == Some(items@),
{
    match container {
        YamlValue::Mapping(entries) => match mapping_get(entries, "env") {
            Some(YamlValue::Sequence(items)) => Some(items),
            _ => None,
        },
        _ => None,
    }
}

fn env_name_and_value(item: &YamlValue) -> (r: Option<(&String, Option<&String>)>)
    ensures
        r is Some <==> spec_env_name_and_value(*item) is Some,
        r matches Some(pair) ==> spec_env_name_and_value(*item) == Some((pair.0@, match pair.1 {
            Some(v) => Some(v@),
            None => None,
        })),
{
    match item {
        YamlValue::Mapping(entries) => {
            let name = match mapping_get(entries, "name") {
                Some(name_value) => match as_str(name_value) {
                    Some(name) => name,
                    None => {
                        return None;
                    },
                },
                None => {
                    return None;
                },
            };
            let value = match mapping_get(entries, "value") {
                Some(v) => as_str(v),
                None => None,
            };
            Some((name, value))
        },
        _ => None,
    }
}

/// The fixed words the scan compares against.
struct AuthWords {
    oidc_prefix: Vec<char>,
    auth_mode: Vec<char>,
    auth_provider: Vec<char>,
    oidc: Vec<char>,
    openid: Vec<char>,
    basic: Vec<char>,
    none: Vec<char>,
}

impl AuthWords {
    spec fn valid(&self) -> bool {
        &&& self.oidc_prefix@ == oidc_prefix()
        &&& self.auth_mode@ == auth_mode_name()
        &&& self.auth_provider@ == auth_provider_name()
        &&& self.oidc@ == oidc_word()
        &&& self.openid@ == openid_word()
        &&& self.basic@ == basic_word()
        &&& self.none@ == none_word()
    }

    fn new() -> (r: AuthWords)
        ensures
            r.valid(),
    {
        AuthWords {
            oidc_prefix: vec!['O', 'I', 'D', 'C', '_'],
            auth_mode: vec!['A', 'U', 'T', 'H', '_', 'M', 'O', 'D', 'E'],
            auth_provider: vec!['A', 'U', 'T', 'H', '_', 'P', 'R', 'O', 'V', 'I', 'D', 'E', 'R'],
            oidc: vec!['o', 'i', 'd', 'c'],
            openid: vec!['o', 'p', 'e', 'n', 'i', 'd'],
            basic: vec!['b', 'a', 's', 'i', 'c'],
            none: vec!['n', 'o', 'n', 'e'],
        }
    }
}

fn mentions(value: &Option<Vec<char>>, word: &Vec<char>) -> (r: bool)
    ensures
        r == value_mentions(match value {
            Some(v) => Some(v@),
            None => None,
        }, word@),
{
    match value {
        Some(v) => lower_has(v, word),
        None => false,
    }
}

/// What one entry decides, as `entry_step` states.
fn decide_entry(words: &AuthWords, name: &String, value: Option<&String>, seen: &mut bool)
    -> (r: Option<&'static str>)
    requires
        words.valid(),
    ensures
        ({
            let step = entry_step((name@, match value {
                Some(v) => Some(v@),
                None => None,
            }), *old(seen));
            &&& r is Some <==> step.0 is Some
            &&& r matches Some(mode) ==> step.0 == Some(mode@)
            &&& r is None ==> *final(seen) == step.1
        }),
{
    let name_chars = chars_of(name.as_str());
    let value_chars: Option<Vec<char>> = match value {
        Some(v) => Some(chars_of(v.as_str())),
        None => None,
    };
    if upper_has_prefix(&name_chars, &words.oidc_prefix) || mentions(&value_chars, &words.oidc)
        || mentions(&value_chars, &words.openid) {
        return Some("oidc");
    }
    if upper_is(&name_chars, &words.auth_mode) || upper_is(&name_chars, &words.auth_provider) {
        *seen = true;
        if mentions(&value_chars, &words.oidc) || mentions(&value_chars, &words.openid) {
            return Some("oidc");
        }
        if mentions(&value_chars, &words.basic) {
            return Some("basic");
        }
        if mentions(&value_chars, &words.none) {
            return Some("none");
        }
    }
    None
}

fn detect_auth_mode(containers: &Vec<YamlValue>) -> (r: &'static str)
    ensures
        r@ == spec_auth_mode(containers@),
{
    let words = AuthWords::new();
    let mut seen = false;
    let mut ci: usize = 0;
    while ci < containers.len()
        invariant
            words.valid(),
            ci <= containers@.len(),
            spec_auth_mode(containers@) == spec_auth_decision(pairs_from(containers@, ci as int), seen),
        decreases containers@.len() - ci,
    {
        let ghost later = pairs_from(containers@, ci + 1);
        assert(pairs_from(containers@, ci as int) == container_pairs(containers@[ci as int]) + later);
        match env_items(&containers[ci]) {
            Some(items) => {
                let mut j: usize = 0;
                assert(items@.skip(0) == items@);
                while j < items.len()
                    invariant
                        words.valid(),
                        j <= items@.len(),
                        spec_auth_mode(containers@)
                            == spec_auth_decision(item_pairs(items@.skip(j as int)) + later, seen),
                    decreases items@.len() - j,
                {
                    let ghost rest = item_pairs(items@.skip(j + 1));
                    assert(items@.skip(j as int).drop_first() == items@.skip(j + 1));
                    assert(items@.skip(j as int)[0] == items@[j as int]);
                    match env_name_and_value(&items[j]) {
                        Some((name, value)) => {
                            let ghost pair = (name@, match value {
                                Some(v) => Some(v@),
                                None => None,
                            });
                            assert(item_pairs(items@.skip(j as int)) + later == seq![pair] + (rest + later));
                            let ghost seen_before = seen;
                            let decided = decide_entry(&words, name, value, &mut seen);
                            proof {
                                lemma_decision_step(pair, rest + later, seen_before);
                            }
                            if let Some(mode) = decided {
                                return mode;
                            }
                            assert(item_pairs(items@.skip(j + 1)) + later == rest + later);
                        },
                        None => {
                            assert(item_pairs(items@.skip(j as int)) == rest);
                        },
                    }
                    j += 1;
                }
                assert(items@.skip(j as int).len() == 0);
                assert(item_pairs(items@.skip(j as int)) + later == later);
            },
            None => {
                assert(container_pairs(containers@[ci as int]) + later == later);
            },
        }
        ci += 1;
    }
    assert(pairs_from(containers@, ci as int).len() == 0);
    if seen { "unknown" } else { "none" }
}

impl Rule for AuthModeRule {
    open spec fn spec_meta(&self) -> RuleMeta {
        spec_auth_meta()
    }

    open spec fn spec_evaluate(&self, document: SnapshotDocument) -> Option<RuleObservationView> {
        spec_auth_observation(document)
    }

    fn meta(&self) -> (r: RuleMeta) {
        RuleMeta {
            id: RuleId::AUTH_MODE(),
            category: SignalCategory::Authentication,
            title: "Authentication mode",
            rationale: "Authentication drift changes who can access the workload and how identity is enforced.",
        }
    }

    fn evaluate(&self, document: &SnapshotDocument) -> (r: Option<RuleObservation>) {
        let containers = match workload_containers(document) {
            Some(containers) => containers,
            None => {
                return None;
            },
        };
        let mode = detect_auth_mode(containers);
        let word = if string_is(&String::from_str(mode), "none") { "no" } else { mode };
        let mut description = document.display_name();
        description.append(" uses ");
        description.append(word);
        description.append(" authentication");
        Some(RuleObservation { value: ObservationValue::Keyword(mode), description })
    }
}

proof fn lemma_auth_words()
    ensures
        oidc_prefix() == "OIDC_"@,
        auth_mode_name() == "AUTH_MODE"@,
        auth_provider_name() == "AUTH_PROVIDER"@,
        oidc_word() == "oidc"@,
        openid_word() == "openid"@,
        basic_word() == "basic"@,
        none_word() == "none"@,
{
    reveal_strlit("OIDC_");
    reveal_strlit("AUTH_MODE");
    reveal_strlit("AUTH_PROVIDER");
    reveal_strlit("oidc");
    reveal_strlit("openid");
    reveal_strlit("basic");
    reveal_strlit("none");
    assert(oidc_prefix() =~= "OIDC_"@);
    assert(auth_mode_name() =~= "AUTH_MODE"@);
    assert(auth_provider_name() =~= "AUTH_PROVIDER"@);
    assert(oidc_word() =~= "oidc"@);
    assert(openid_word() =~= "openid"@);
    assert(basic_word() =~= "basic"@);
    assert(none_word() =~= "none"@);
}

/// An environment entry's name is `AUTH_MODE` or `AUTH_PROVIDER`, upper-cased in ASCII.
pub open spec fn names_auth_setting(name: Seq<char>) -> bool {
    upper_equals(name, "AUTH_MODE"@) || upper_equals(name, "AUTH_PROVIDER"@)
}

/// An entry whose name starts with `OIDC_` or whose value mentions `oidc`,
/// `openid`, `basic` or `none` (cases ignored in ASCII).
pub open spec fn has_auth_word(pair: (Seq<char>, Option<Seq<char>>)) -> bool {
    upper_starts_with(pair.0, "OIDC_"@)
        || (pair.1 matches Some(v) && (lower_contains(v, "oidc"@) || lower_contains(v, "openid"@)
            || lower_contains(v, "basic"@) || lower_contains(v, "none"@)))
}

proof fn lemma_decision_without_words(pairs: Seq<(Seq<char>, Option<Seq<char>>)>, seen: bool)
    requires
        forall|j: int| 0 <= j < pairs.len() ==> !has_auth_word(#[trigger] pairs[j]),
    ensures
        spec_auth_decision(pairs, seen) == if seen || exists|j: int| 0 <= j < pairs.len()
            && names_auth_setting(#[trigger] pairs[j].0) { "unknown"@ } else { "none"@ },
    decreases pairs.len(),
{
    lemma_auth_words();
    if pairs.len() > 0 {
        let rest = pairs.drop_first();
        assert(!has_auth_word(pairs[0]));
        let seen_after = seen || names_auth_setting(pairs[0].0);
        assert(entry_step(pairs[0], seen) == (None::<Seq<char>>, seen_after));
        assert forall|j: int| 0 <= j < rest.len() implies !has_auth_word(#[trigger] rest[j]) by {
            assert(rest[j] == pairs[j + 1]);
        }
        lemma_decision_without_words(rest, seen_after);
        if exists|j: int| 0 <= j < pairs.len() && names_auth_setting(#[trigger] pairs[j].0) {
            let j = choose|j: int| 0 <= j < pairs.len() && names_auth_setting(#[trigger] pairs[j].0);
            if j > 0 {
                assert(rest[j - 1] == pairs[j]);
            }
        }
        if exists|j: int| 0 <= j < rest.len() && names_auth_setting(#[trigger] rest[j].0) {
            let j = choose|j: int| 0 <= j < rest.len() && names_auth_setting(#[trigger] rest[j].0);
            assert(rest[j] == pairs[j + 1]);
        }
    }
}

proof fn lemma_decision_first_setting(pairs: Seq<(Seq<char>, Option<Seq<char>>)>, seen: bool, k: int)
    requires
        0 <= k < pairs.len(),
        forall|j: int| 0 <= j < k ==> !has_auth_word(#[trigger] pairs[j]) && !names_auth_setting(pairs[j].0),
        names_auth_setting(pairs[k].0),
        pairs[k].1 matches Some(v) && lower_contains(v, "basic"@) && !lower_contains(v, "oidc"@)
            && !lower_contains(v, "openid"@),
    ensures
        spec_auth_decision(pairs, seen) == "basic"@,
    decreases k,
{
    lemma_auth_words();
    reveal_strlit("AUTH_MODE");
    reveal_strlit("AUTH_PROVIDER");
    reveal_strlit("OIDC_");
    if k == 0 {
        let name = pairs[0].0;
        if upper_starts_with(name, "OIDC_"@) {
            assert(upper_code(name[0]) == char_code("OIDC_"@[0]));
            if upper_equals(name, "AUTH_MODE"@) {
                assert(upper_code(name[0]) == char_code("AUTH_MODE"@[0]));
            } else {
                assert(upper_code(name[0]) == char_code("AUTH_PROVIDER"@[0]));
            }
            assert(false);
        }
        assert(entry_step(pairs[0], seen) == (Some("basic"@), true));
    } else {
        let rest = pairs.drop_first();
        assert(!has_auth_word(pairs[0]) && !names_auth_setting(pairs[0].0));
        assert(entry_step(pairs[0], seen) == (None::<Seq<char>>, seen));
        assert forall|j: int| 0 <= j < k - 1 implies !has_auth_word(#[trigger] rest[j])
            && !names_auth_setting(rest[j].0) by {
            assert(rest[j] == pairs[j + 1]);
        }
        assert(rest[k - 1] == pairs[k]);
        lemma_decision_first_setting(rest, seen, k - 1);
    }
}

/// `AUTH_MODE` and `AUTH_PROVIDER` both name the authentication setting. Where
/// no environment entry of a workload's containers starts with `OIDC_` or has
/// a value mentioning `oidc`, `openid`, `basic` or `none`, the mode observed is
/// `unknown` if some entry is named `AUTH_MODE` or `AUTH_PROVIDER` and `none`
/// otherwise.
pub proof fn lemma_auth_setting_without_known_value(d: SnapshotDocument)
    requires
        spec_workload_containers(d) is Some,
        forall|j: int| 0 <= j < pairs_from(spec_workload_containers(d)->Some_0, 0).len()
            ==> !has_auth_word(#[trigger] pairs_from(spec_workload_containers(d)->Some_0, 0)[j]),
    ensures
        ({
            let pairs = pairs_from(spec_workload_containers(d)->Some_0, 0);
            AuthModeRule.spec_evaluate(d) matches Some(o) && o.value == ObservationValueView::Keyword(
                if exists|j: int| 0 <= j < pairs.len() && names_auth_setting(#[trigger] pairs[j].0) {
                    "unknown"@
                } else {
                    "none"@
                })
        }),
{
    lemma_decision_without_words(pairs_from(spec_workload_containers(d)->Some_0, 0), false);
}

/// The first environment entry that decides: where no earlier entry starts
/// with `OIDC_`, mentions a known word in its value or names the setting, an
/// entry named `AUTH_MODE` or `AUTH_PROVIDER` whose value mentions `basic`
/// (and neither `oidc` nor `openid`) makes the mode `basic`.
pub proof fn lemma_auth_setting_basic(d: SnapshotDocument, k: int)
    requires
        spec_workload_containers(d) is Some,
        ({
            let pairs = pairs_from(spec_workload_containers(d)->Some_0, 0);
            &&& 0 <= k < pairs.len()
            &&& forall|j: int| 0 <= j < k ==> !has_auth_word(#[trigger] pairs[j]) && !names_auth_setting(pairs[j].0)
            &&& names_auth_setting(pairs[k].0)
            &&& pairs[k].1 matches Some(v) && lower_contains(v, "basic"@) && !lower_contains(v, "oidc"@)
                && !lower_contains(v, "openid"@)
        }),
    ensures
        AuthModeRule.spec_evaluate(d) matches Some(o) && o.value == ObservationValueView::Keyword("basic"@),
{
    lemma_decision_first_setting(pairs_from(spec_workload_containers(d)->Some_0, 0), false, k);
}

/// What the first deciding environment entry decides on its own: `oidc` when
/// its name starts with `OIDC_` or its value mentions `oidc` or `openid`;
/// for an `AUTH_MODE`/`AUTH_PROVIDER` entry, `basic` when its value mentions
/// `basic`, `none` when it mentions `none`.
pub open spec fn deciding_word(pair: (Seq<char>, Option<Seq<char>>)) -> Option<Seq<char>> {
    let mentions = |w: Seq<char>| pair.1 matches Some(v) && lower_contains(v, w);
    if upper_starts_with(pair.0, "OIDC_"@) || mentions("oidc"@) || mentions("openid"@) {
        Some("oidc"@)
    } else if names_auth_setting(pair.0) && mentions("basic"@) {
        Some("basic"@)
    } else if names_auth_setting(pair.0) && mentions("none"@) {
        Some("none"@)
    } else {
        None
    }
}

proof fn lemma_decision_first_deciding(pairs: Seq<(Seq<char>, Option<Seq<char>>)>, seen: bool, k: int)
    requires
        0 <= k < pairs.len(),
        forall|j: int| 0 <= j < k ==> #[trigger] deciding_word(pairs[j]) is None,
        deciding_word(pairs[k]) is Some,
    ensures
        spec_auth_decision(pairs, seen) == deciding_word(pairs[k])->Some_0,
    decreases k,
{
    lemma_auth_words();
    let step = entry_step(pairs[0], seen);
    if k == 0 {
        assert(step.0 == deciding_word(pairs[0]));
    } else {
        assert(deciding_word(pairs[0]) is None);
        assert(step.0 is None);
        let rest = pairs.drop_first();
        assert forall|j: int| 0 <= j < k - 1 implies #[trigger] deciding_word(rest[j]) is None by {
            assert(rest[j] == pairs[j + 1]);
        }
        assert(rest[k - 1] == pairs[k]);
        lemma_decision_first_deciding(rest, step.1, k - 1);
    }
}

/// The first environment entry that decides the authentication mode decides
/// it alone: the mode observed is that entry's `deciding_word`, whatever comes
/// after it.
pub proof fn lemma_first_deciding_entry_wins(d: SnapshotDocument, k: int)
    requires
        spec_workload_containers(d) is Some,
        0 <= k < pairs_from(spec_workload_containers(d)->Some_0, 0).len(),
        forall|j: int| 0 <= j < k
            ==> #[trigger] deciding_word(pairs_from(spec_workload_containers(d)->Some_0, 0)[j]) is None,
        deciding_word(pairs_from(spec_workload_containers(d)->Some_0, 0)[k]) is Some,
    ensures
        AuthModeRule.spec_evaluate(d) matches Some(o) && o.value == ObservationValueView::Keyword(
            deciding_word(pairs_from(spec_workload_containers(d)->Some_0, 0)[k])->Some_0),
{
    lemma_decision_first_deciding(pairs_from(spec_workload_containers(d)->Some_0, 0), false, k);
}

/// Where the authentication rule finds containers: a Pod's `spec.containers`;
/// a Deployment's, StatefulSet's, DaemonSet's, ReplicaSet's or Job's
/// `spec.template.spec.containers`; a CronJob's job template containers. Any
/// other document is not observed.
pub proof fn lemma_auth_container_paths(d: SnapshotDocument)
    ensures
        spec_kind(d) == Some("Pod"@) ==> spec_workload_containers(d)
            == spec_sequence_at_path(d.spec_value(), seq!["spec"@, "containers"@]),
        (spec_kind(d) == Some("Deployment"@) || spec_kind(d) == Some("StatefulSet"@)
            || spec_kind(d) == Some("DaemonSet"@) || spec_kind(d) == Some("ReplicaSet"@)
            || spec_kind(d) == Some("Job"@)) ==> spec_workload_containers(d)
            == spec_sequence_at_path(d.spec_value(), seq!["spec"@, "template"@, "spec"@, "containers"@]),
        spec_kind(d) == Some("CronJob"@) ==> spec_workload_containers(d)
            == spec_sequence_at_path(d.spec_value(),
                seq!["spec"@, "jobTemplate"@, "spec"@, "template"@, "spec"@, "containers"@]),
        !(spec_kind(d) matches Some(k) && (k == "Pod"@ || k == "CronJob"@ || k == "Deployment"@
            || k == "StatefulSet"@ || k == "DaemonSet"@ || k == "ReplicaSet"@ || k == "Job"@))
            ==> AuthModeRule.spec_evaluate(d) is None,
        AuthModeRule.spec_evaluate(d) is Some <==> spec_workload_containers(d) is Some,
{
    reveal_strlit("CronJob");
    reveal_strlit("Pod");
    reveal_strlit("Deployment");
    reveal_strlit("StatefulSet");
    reveal_strlit("DaemonSet");
    reveal_strlit("ReplicaSet");
    reveal_strlit("Job");
    assert("Pod"@[0] != "Deployment"@[0]);
    assert("Pod"@[0] != "StatefulSet"@[0]);
    assert("Pod"@[0] != "DaemonSet"@[0]);
    assert("Pod"@[0] != "ReplicaSet"@[0]);
    assert("Pod"@[0] != "Job"@[0]);
    assert("CronJob"@[0] != "Pod"@[0]);
    assert("CronJob"@[0] != "Deployment"@[0]);
    assert("CronJob"@[0] != "StatefulSet"@[0]);
    assert("CronJob"@[0] != "DaemonSet"@[0]);
    assert("CronJob"@[0] != "ReplicaSet"@[0]);
    assert("CronJob"@.len() != "Job"@.len());
}

} // verus!
