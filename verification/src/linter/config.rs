//! Linter configuration: disabled rules, severity overrides and per-connector
//! exemptions.
use vstd::prelude::*;
use crate::assoc::{StringSet, assoc_find, assoc_index, assoc_get, assoc_put, assoc_set, keyed, keys_unique,
    lemma_assoc_index_bound, lemma_assoc_set_unique};
use crate::linter::types::{Severity, severity_from_name};
use crate::text::{concat5, views};

verus! {

/// Configuration for which rules run and at what severity.
pub struct LinterConfig {
    /// Globally disabled rule IDs.
    pub disabled_rules: StringSet,
    /// Per-rule severity overrides.
    pub rule_severities: Vec<(String, Severity)>,
    /// Per-connector rule exemptions.
    pub connector_exemptions: Vec<(String, StringSet)>,
}

/// The configuration as read from `.lintrc.toml`, before severities are checked.
pub struct RawLinterConfig {
    pub disabled_rules: Vec<String>,
    /// Rule ID and severity name, in ascending order of rule ID (the order
    /// of the parsed TOML table).
    pub rule_severities: Vec<(String, String)>,
    /// Connector name and exempted rule IDs, in ascending order of connector
    /// name (the order of the parsed TOML table).
    pub connector_exemptions: Vec<(String, Vec<String>)>,
}

impl LinterConfig {
    /// Each rule ID has at most one severity override and each connector at
    /// most one exemption list, as in the maps they stand for.
    pub open spec fn well_formed(self) -> bool {
        &&& keys_unique(keyed(self.rule_severities@))
        &&& keys_unique(keyed(self.connector_exemptions@))
    }
}

/// Whether rule `rule_id` runs for a connector with the given optional name.
pub open spec fn rule_enabled(cfg: LinterConfig, rule_id: Seq<char>, name: Option<Seq<char>>) -> bool {
    &&& !cfg.disabled_rules@.contains(rule_id)
    &&& !(name matches Some(n) && assoc_get(keyed(cfg.connector_exemptions@), n) matches Some(ex)
        && ex@.contains(rule_id))
}

/// The severity of rule `rule_id`: its override, else `default`.
pub open spec fn effective_severity(cfg: LinterConfig, rule_id: Seq<char>, default: Severity) -> Severity {
    match assoc_get(keyed(cfg.rule_severities@), rule_id) {
        Some(s) => s,
        None => default,
    }
}

/// The message for a severity name that is not one.
pub open spec fn invalid_severity_message(rule_id: Seq<char>, severity: Seq<char>) -> Seq<char> {
    "invalid severity '"@ + severity + "' for rule '"@ + rule_id
        + "' (expected error, warning, or info)"@
}

/// Severity overrides read in order; the first name that is no severity
/// refuses the whole table.
pub open spec fn severities_from(raw: Seq<(Seq<char>, Seq<char>)>) -> Result<
    Seq<(Seq<char>, Severity)>,
    Seq<char>,
>
    decreases raw.len(),
{
    if raw.len() == 0 {
        Ok(seq![])
    } else {
        match severities_from(raw.drop_last()) {
            Err(e) => Err(e),
            Ok(prev) => match severity_from_name(raw.last().1) {
                None => Err(invalid_severity_message(raw.last().0, raw.last().1)),
                Some(s) => Ok(assoc_set(prev, raw.last().0, s)),
            },
        }
    }
}

pub open spec fn raw_pairs(raw: Seq<(String, String)>) -> Seq<(Seq<char>, Seq<char>)> {
    raw.map_values(|e: (String, String)| (e.0@, e.1@))
}

/// Exemption lists read in order, a later entry for a name replacing an
/// earlier one.
pub open spec fn exemptions_from(raw: Seq<(Seq<char>, Set<Seq<char>>)>) -> Seq<(Seq<char>, Set<Seq<char>>)>
    decreases raw.len(),
{
    if raw.len() == 0 {
        seq![]
    } else {
        assoc_set(exemptions_from(raw.drop_last()), raw.last().0, raw.last().1)
    }
}

pub open spec fn exemption_sets(es: Seq<(String, StringSet)>) -> Seq<(Seq<char>, Set<Seq<char>>)> {
    es.map_values(|e: (String, StringSet)| (e.0@, e.1@))
}

pub open spec fn raw_exemptions(es: Seq<(String, Vec<String>)>) -> Seq<(Seq<char>, Set<Seq<char>>)> {
    es.map_values(|e: (String, Vec<String>)| (e.0@, views(e.1@).to_set()))
}

impl LinterConfig {
    /// The empty configuration: every rule enabled at its default severity.
    pub fn new() -> (r: LinterConfig)
        ensures
            r.disabled_rules@ == Set::<Seq<char>>::empty(),
            r.rule_severities@.len() == 0,
            r.connector_exemptions@.len() == 0,
            r.well_formed(),
    {
        LinterConfig {
            disabled_rules: StringSet::new(),
            rule_severities: Vec::new(),
            connector_exemptions: Vec::new(),
        }
    }

    /// Whether a rule should run for an optional connector name.
    pub fn is_rule_enabled(&self, rule_id: &str, connector_name: Option<&str>) -> (r: bool)
        ensures
            r == rule_enabled(
                *self,
                rule_id@,
                match connector_name {
                    Some(n) => Some(n@),
                    None => None,
                },
            ),
    {
        if self.disabled_rules.contains(rule_id) {
            return false;
        }
        if let Some(name) = connector_name {
            let i = assoc_find(&self.connector_exemptions, name);
            proof {
                lemma_assoc_index_bound(keyed(self.connector_exemptions@), name@);
            }
            if i < self.connector_exemptions.len() {
                if self.connector_exemptions[i].1.contains(rule_id) {
                    return false;
                }
            }
        }
        true
    }

    /// The effective severity for a rule.
    pub fn severity_for(&self, rule_id: &str, default: Severity) -> (r: Severity)
        ensures
            r == effective_severity(*self, rule_id@, default),
    {
        let i = assoc_find(&self.rule_severities, rule_id);
        proof {
            lemma_assoc_index_bound(keyed(self.rule_severities@), rule_id@);
        }
        if i < self.rule_severities.len() {
            self.rule_severities[i].1
        } else {
            default
        }
    }

    /// Builds the configuration from the outcome of reading the TOML file's
    /// layout: a TOML error becomes `invalid TOML: <error>`.
    pub fn from_toml_outcome(parsed: Result<RawLinterConfig, String>) -> (r: Result<LinterConfig, String>)
        ensures
            match parsed {
                Err(e) => r matches Err(m) && m@ == "invalid TOML: "@ + e@,
                Ok(raw) => match severities_from(raw_pairs(raw.rule_severities@)) {
                    Err(e) => r matches Err(m) && m@ == e,
                    Ok(sev) => r matches Ok(c) && c.well_formed() && keyed(c.rule_severities@) == sev
                        && c.disabled_rules@ == views(raw.disabled_rules@).to_set()
                        && exemption_sets(c.connector_exemptions@) == exemptions_from(
                            raw_exemptions(raw.connector_exemptions@),
                        ),
                },
            },
    {
        match parsed {
            Err(e) => Err(crate::text::concat2("invalid TOML: ", e.as_str())),
            Ok(raw) => LinterConfig::from_raw(raw),
        }
    }

    /// Builds the configuration from what the file holds: every severity name
    /// must be `error`, `warning` or `info` in any ASCII case.
    pub fn from_raw(raw: RawLinterConfig) -> (r: Result<LinterConfig, String>)
        ensures
            match severities_from(raw_pairs(raw.rule_severities@)) {
                Err(e) => r matches Err(m) && m@ == e,
                Ok(sev) => r matches Ok(c) && c.well_formed() && keyed(c.rule_severities@) == sev
                    && c.disabled_rules@ == views(raw.disabled_rules@).to_set()
                    && exemption_sets(c.connector_exemptions@) == exemptions_from(
                        raw_exemptions(raw.connector_exemptions@),
                    ),
            },
    {
        let RawLinterConfig { disabled_rules, rule_severities, connector_exemptions } = raw;
        let ghost pairs = raw_pairs(rule_severities@);
        assert(pairs == raw_pairs(raw.rule_severities@));
        let mut severities: Vec<(String, Severity)> = Vec::new();
        let mut i: usize = 0;
        assert(pairs.take(0) =~= Seq::<(Seq<char>, Seq<char>)>::empty());
        assert(keyed(severities@) =~= Seq::<(Seq<char>, Severity)>::empty());
        while i < rule_severities.len()
            invariant
                i <= rule_severities@.len(),
                pairs == raw_pairs(rule_severities@),
                pairs == raw_pairs(raw.rule_severities@),
                severities_from(pairs.take(i as int)) == Ok::<Seq<(Seq<char>, Severity)>, Seq<char>>(
                    keyed(severities@),
                ),
                keys_unique(keyed(severities@)),
            decreases rule_severities.len() - i,
        {
            proof {
                assert(pairs.take(i + 1).drop_last() =~= pairs.take(i as int));
                assert(pairs.take(i + 1).last() == pairs[i as int]);
            }
            let rule_id = rule_severities[i].0.clone();
            let name = rule_severities[i].1.clone();
            assert(pairs[i as int] == (rule_id@, name@));
            match Severity::parse(name.as_str()) {
                None => {
                    let msg = concat5(
                        "invalid severity '",
                        name.as_str(),
                        "' for rule '",
                        rule_id.as_str(),
                        "' (expected error, warning, or info)",
                    );
                    proof {
                        lemma_severities_err_sticky(pairs, i as int + 1);
                        assert(pairs.take(pairs.len() as int) =~= pairs);
                        assert(severities_from(pairs) == Err::<Seq<(Seq<char>, Severity)>, Seq<char>>(msg@));
                    }
                    return Err(msg);
                },
                Some(s) => {
                    let ghost prev = keyed(severities@);
                    assoc_put(&mut severities, rule_id, s);
                    proof {
                        lemma_assoc_set_unique(prev, rule_id@, s);
                    }
                },
            }
            i += 1;
        }
        assert(pairs.take(pairs.len() as int) =~= pairs);
        let disabled = StringSet::from_vec(disabled_rules);
        let ghost rex = raw_exemptions(connector_exemptions@);
        assert(rex == raw_exemptions(raw.connector_exemptions@));
        let mut exemptions: Vec<(String, StringSet)> = Vec::new();
        let mut j: usize = 0;
        let mut rest = connector_exemptions;
        let ghost n = rest.len();
        assert(rex.take(0) =~= Seq::<(Seq<char>, Set<Seq<char>>)>::empty());
        assert(exemption_sets(exemptions@) =~= Seq::<(Seq<char>, Set<Seq<char>>)>::empty());
        while rest.len() > 0
            invariant
                j + rest.len() == n,
                rex.len() == n,
                raw_exemptions(rest@) == rex.subrange(j as int, n as int),
                exemption_sets(exemptions@) == exemptions_from(rex.take(j as int)),
                keys_unique(keyed(exemptions@)),
            decreases rest.len(),
        {
            let ghost before = rest@;
            assert(raw_exemptions(before)[0] == rex[j as int]);
            let (name, rules) = rest.remove(0);
            assert(rest@ =~= before.subrange(1, before.len() as int));
            assert forall|m: int| 0 <= m < rest@.len() implies raw_exemptions(rest@)[m]
                == rex.subrange(j + 1, n as int)[m] by {
                assert(raw_exemptions(before)[m + 1] == rex.subrange(j as int, n as int)[m + 1]);
            }
            assert(raw_exemptions(rest@) =~= rex.subrange(j + 1, n as int));
            let set = StringSet::from_vec(rules);
            let ghost prev = exemptions@;
            let ghost entry = (name@, set@);
            let ghost sets_prev = exemption_sets(prev);
            let k = assoc_find(&exemptions, name.as_str());
            proof {
                lemma_assoc_index_bound(keyed(prev), name@);
                lemma_keyed_index_same(prev, name@);
            }
            let ghost name_v = name@;
            if k < exemptions.len() {
                exemptions.set(k, (name, set));
                assert(exemption_sets(exemptions@) =~= sets_prev.update(k as int, entry));
            } else {
                exemptions.push((name, set));
                assert(exemption_sets(exemptions@) =~= sets_prev.push(entry));
            }
            proof {
                assert(keyed(exemptions@) =~= assoc_set(keyed(prev), name_v, exemptions@[k as int].1));
                lemma_assoc_set_unique(keyed(prev), name_v, exemptions@[k as int].1);
            }
            assert(rex.take(j + 1).drop_last() =~= rex.take(j as int));
            assert(rex.take(j + 1).last() == entry);
            j += 1;
        }
        assert(rex.take(n as int) =~= rex);
        Ok(LinterConfig { disabled_rules: disabled, rule_severities: severities, connector_exemptions: exemptions })
    }
}

/// The exemption list's key positions are those of its sets' list.
proof fn lemma_keyed_index_same(es: Seq<(String, StringSet)>, key: Seq<char>)
    ensures
        assoc_index(keyed(es), key) == assoc_index(exemption_sets(es), key),
    decreases es.len(),
{
    if es.len() > 0 {
        lemma_keyed_index_same(es.drop_first(), key);
        assert(keyed(es).drop_first() =~= keyed(es.drop_first()));
        assert(exemption_sets(es).drop_first() =~= exemption_sets(es.drop_first()));
    }
}

/// Once a prefix of the table is refused, every longer prefix is refused
/// with the same message.
proof fn lemma_severities_err_sticky(raw: Seq<(Seq<char>, Seq<char>)>, i: int)
    requires
        0 < i <= raw.len(),
        severity_from_name(raw[i - 1].1) is None,
        severities_from(raw.take(i - 1)) is Ok,
    ensures
        severities_from(raw) == Err::<Seq<(Seq<char>, Severity)>, Seq<char>>(
            invalid_severity_message(raw[i - 1].0, raw[i - 1].1),
        ),
    decreases raw.len() - i,
{
    assert(raw.take(i).drop_last() =~= raw.take(i - 1));
    assert(raw.take(i).last() == raw[i - 1]);
    lemma_err_extends(raw, i);
}

proof fn lemma_err_extends(raw: Seq<(Seq<char>, Seq<char>)>, i: int)
    requires
        0 <= i <= raw.len(),
        severities_from(raw.take(i)) is Err,
    ensures
        severities_from(raw) == severities_from(raw.take(i)),
    decreases raw.len() - i,
{
    if i < raw.len() {
        assert(raw.take(i + 1).drop_last() =~= raw.take(i));
        lemma_err_extends(raw, i + 1);
    } else {
        assert(raw.take(i) =~= raw);
    }
}

} // verus!
