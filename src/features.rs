//! Derivation of the features that a configuration needs.
use vstd::prelude::*;
use crate::config::{Component, Section, SingerConfig};
use crate::feature_set::{names_of, sorted_unique, FeatureSet};
use crate::order::{lemma_lex_irreflexive, lex_lt};
use crate::tables::{exception, feature_name, feature_of, resolved, section_name};

verus! {

/// The one feature that is never requested: it is always available.
pub open spec fn suppressed() -> Seq<char> {
    "transforms-log_to_metric"@
}

/// `name` when the capability is present, nothing otherwise.
pub open spec fn option_features(name: Seq<char>, present: bool) -> Set<Seq<char>> {
    if present {
        set![name]
    } else {
        Set::empty()
    }
}

/// The features that the components of one section need.
pub open spec fn section_features(s: Section, comps: Seq<Component>) -> Set<Seq<char>> {
    Set::new(|f: Seq<char>| exists|i: int| 0 <= i < comps.len() && f == feature_of(s, #[trigger] comps[i].kind@))
}

/// The features that a configuration needs: its present capabilities and the
/// features of its components, less the suppressed one.
pub open spec fn required_features(c: SingerConfig) -> Set<Seq<char>> {
    option_features("api"@, c.api is Some)
        .union(option_features("enterprise"@, c.enterprise is Some))
        .union(section_features(Section::Sources, c.sources@))
        .union(section_features(Section::Transforms, c.transforms@))
        .union(section_features(Section::Sinks, c.sinks@))
        .remove(suppressed())
}

/// `r` lists the members of `s` in ascending order, each once.
pub open spec fn lists(r: Seq<Seq<char>>, s: Set<Seq<char>>) -> bool {
    &&& sorted_unique(r)
    &&& forall|f: Seq<char>| #[trigger] r.contains(f) <==> s.contains(f)
}

/// A section's feature starts with the first letter of the section's name.
proof fn lemma_feature_first_char(s: Section, kind: Seq<char>)
    ensures
        feature_of(s, kind).len() > 0,
        feature_of(s, kind)[0] == 's' || feature_of(s, kind)[0] == 't',
{
    reveal_strlit("sources");
    reveal_strlit("transforms");
    reveal_strlit("sinks");
    assert(feature_of(s, kind)[0] == section_name(s)[0]);
}

/// Neither capability name is the feature of a component or the suppressed
/// feature.
proof fn lemma_capabilities_distinct(c: SingerConfig)
    ensures
        !section_features(Section::Sources, c.sources@).contains("api"@),
        !section_features(Section::Transforms, c.transforms@).contains("api"@),
        !section_features(Section::Sinks, c.sinks@).contains("api"@),
        !section_features(Section::Sources, c.sources@).contains("enterprise"@),
        !section_features(Section::Transforms, c.transforms@).contains("enterprise"@),
        !section_features(Section::Sinks, c.sinks@).contains("enterprise"@),
        "api"@ != suppressed(),
        "enterprise"@ != suppressed(),
        "api"@ != "enterprise"@,
{
    reveal_strlit("api");
    reveal_strlit("enterprise");
    reveal_strlit("transforms-log_to_metric");
    assert("api"@.len() != suppressed().len());
    assert("enterprise"@.len() != suppressed().len());
    assert forall|s: Section, comps: Seq<Component>|
        !(#[trigger] section_features(s, comps)).contains("api"@)
        && !section_features(s, comps).contains("enterprise"@) by {
        if section_features(s, comps).contains("api"@) {
            let k = choose|k: int| 0 <= k < comps.len() && "api"@ == feature_of(s, #[trigger] comps[k].kind@);
            lemma_feature_first_char(s, comps[k].kind@);
        }
        if section_features(s, comps).contains("enterprise"@) {
            let k = choose|k: int| 0 <= k < comps.len() && "enterprise"@ == feature_of(s, #[trigger] comps[k].kind@);
            lemma_feature_first_char(s, comps[k].kind@);
        }
    }
}

/// Adds `name` to `features` when `field` is present.
pub fn add_option<T>(features: &mut FeatureSet, name: &str, field: &Option<T>)
    requires
        old(features).wf(),
    ensures
        final(features).wf(),
        forall|f: Seq<char>| #[trigger] final(features)@.contains(f) <==> (old(features)@.contains(f)
            || (field is Some && f == name@)),
{
    if field.is_some() {
        features.insert(name.to_owned());
    }
}

/// Adds to `features` the feature of every component of `section`.
pub fn get_features(features: &mut FeatureSet, key: Section, section: Vec<Component>)
    requires
        old(features).wf(),
    ensures
        final(features).wf(),
        forall|f: Seq<char>| #[trigger] final(features)@.contains(f) <==> (old(features)@.contains(f)
            || section_features(key, section@).contains(f)),
{
    let n = section.len();
    let mut i: usize = 0;
    while i < n
        invariant
            n == section.len(),
            i <= n,
            features.wf(),
            forall|f: Seq<char>| #[trigger] features@.contains(f) <==> (old(features)@.contains(f)
                || section_features(key, section@.take(i as int)).contains(f)),
        decreases n - i,
    {
        let name = feature_name(key, section[i].kind.as_str());
        features.insert(name);
        assert forall|f: Seq<char>| #[trigger] section_features(key, section@.take(i + 1)).contains(f)
            <==> (section_features(key, section@.take(i as int)).contains(f) || f == feature_of(key, section@[i as int].kind@)) by {
            let next = section@.take(i + 1);
            let prev = section@.take(i as int);
            if section_features(key, next).contains(f) {
                let k = choose|k: int| 0 <= k < next.len() && f == feature_of(key, #[trigger] next[k].kind@);
                if k < i {
                    assert(prev[k] == next[k]);
                }
            }
            if section_features(key, prev).contains(f) {
                let k = choose|k: int| 0 <= k < prev.len() && f == feature_of(key, #[trigger] prev[k].kind@);
                assert(prev[k] == next[k]);
            }
            if f == feature_of(key, section@[i as int].kind@) {
                assert(next[i as int] == section@[i as int]);
            }
        }
        i = i + 1;
    }
    assert(section@.take(n as int) =~= section@);
}

/// The features that `config` needs, in ascending order, each once.
pub fn from_config(config: SingerConfig) -> (r: Vec<String>)
    ensures
        lists(names_of(r@), required_features(config)),
        sorted_unique(names_of(r@)),
        !names_of(r@).contains(suppressed()),
        names_of(r@).contains("api"@) <==> config.api is Some,
        names_of(r@).contains("enterprise"@) <==> config.enterprise is Some,
{
    let mut features = FeatureSet::new();
    add_option(&mut features, "api", &config.api);
    add_option(&mut features, "enterprise", &config.enterprise);
    get_features(&mut features, Section::Sources, config.sources);
    get_features(&mut features, Section::Transforms, config.transforms);
    get_features(&mut features, Section::Sinks, config.sinks);
    features.remove("transforms-log_to_metric");
    let ghost fs = features@;
    let r = features.into_vec();
    assert forall|f: Seq<char>| #[trigger] fs.contains(f) <==> required_features(config).contains(f) by {
    }
    proof {
        lemma_capabilities_distinct(config);
    }
    r
}

/// A feature in a derived list occurs there once only.
proof fn lemma_listed_once(r: Seq<Seq<char>>, k: int, m: int)
    requires
        sorted_unique(r),
        0 <= k < r.len(),
        0 <= m < r.len(),
        r[k] == r[m],
    ensures
        k == m,
{
    lemma_lex_irreflexive(r[k]);
    if k < m {
        assert(lex_lt(r[k], r[m]));
    } else if m < k {
        assert(lex_lt(r[m], r[k]));
    }
}

/// A section's feature is the section's name, a hyphen, then the resolved kind.
proof fn lemma_feature_parts(s: Section, kind: Seq<char>)
    ensures
        feature_of(s, kind).take(section_name(s).len() as int) == section_name(s),
        feature_of(s, kind).skip(section_name(s).len() as int + 1) == resolved(s, kind),
{
    reveal_strlit("-");
    assert(feature_of(s, kind).take(section_name(s).len() as int) =~= section_name(s));
    assert(feature_of(s, kind).skip(section_name(s).len() as int + 1) =~= resolved(s, kind));
}

/// A derived list holds no feature twice, and each feature comes before every
/// later one in lexicographic order.
pub proof fn lemma_derived_unique_sorted(c: SingerConfig, r: Seq<Seq<char>>)
    requires
        lists(r, required_features(c)),
    ensures
        forall|k: int, m: int| 0 <= k < r.len() && 0 <= m < r.len() && r[k] == r[m] ==> k == m,
        forall|k: int, m: int| 0 <= k < m < r.len() ==> lex_lt(#[trigger] r[k], #[trigger] r[m]),
{
    assert forall|k: int, m: int| 0 <= k < r.len() && 0 <= m < r.len() && r[k] == r[m] implies k == m by {
        lemma_listed_once(r, k, m);
    }
}

/// When the sources hold a component of kind `prometheus_scrape` and one of
/// kind `prometheus_remote_write`, the derived list holds `sources-prometheus`
/// exactly once, and neither kind yields a feature of its own.
pub proof fn lemma_prometheus_sources_collapse(c: SingerConfig, r: Seq<Seq<char>>, i: int, j: int)
    requires
        lists(r, required_features(c)),
        0 <= i < c.sources.len(),
        0 <= j < c.sources.len(),
        c.sources@[i].kind@ == "prometheus_scrape"@,
        c.sources@[j].kind@ == "prometheus_remote_write"@,
    ensures
        exists|k: int|
            0 <= k < r.len() && r[k] == "sources-prometheus"@ && forall|m: int|
                0 <= m < r.len() && r[m] == "sources-prometheus"@ ==> m == k,
        !r.contains("sources-prometheus_scrape"@),
        !r.contains("sources-prometheus_remote_write"@),
{
    reveal_strlit("sources-prometheus");
    reveal_strlit("sources-prometheus_scrape");
    reveal_strlit("sources-prometheus_remote_write");
    reveal_strlit("sources");
    reveal_strlit("transforms");
    reveal_strlit("sinks");
    reveal_strlit("prometheus");
    reveal_strlit("-");
    reveal_strlit("api");
    reveal_strlit("enterprise");
    reveal_strlit("transforms-log_to_metric");
    let target = "sources-prometheus"@;
    assert(feature_of(Section::Sources, c.sources@[i].kind@) =~= target);
    assert(section_features(Section::Sources, c.sources@).contains(target));
    assert(target.len() != suppressed().len());
    assert(required_features(c).contains(target));
    assert(r.contains(target));
    let k = choose|k: int| 0 <= k < r.len() && r[k] == target;
    assert forall|m: int| 0 <= m < r.len() && r[m] == target implies m == k by {
        lemma_listed_once(r, k, m);
    }
    let sep = seq!["sources-prometheus_scrape"@, "sources-prometheus_remote_write"@];
    assert forall|n: int| 0 <= n < 2 implies !r.contains(#[trigger] sep[n]) by {
        let f = sep[n];
        assert(f.len() > 18);
        if r.contains(f) {
            assert(required_features(c).contains(f));
            assert(f != "api"@ && f != "enterprise"@) by {
                assert(f.len() != "api"@.len());
                assert(f.len() != "enterprise"@.len());
            }
            assert forall|s: Section, comps: Seq<Component>|
                !(#[trigger] section_features(s, comps)).contains(f) by {
                if section_features(s, comps).contains(f) {
                    let q = choose|q: int| 0 <= q < comps.len() && f == feature_of(s, #[trigger] comps[q].kind@);
                    let kind = comps[q].kind@;
                    lemma_feature_parts(s, kind);
                    match s {
                        Section::Sources => {
                            assert(f.skip(8) == resolved(s, kind));
                            if exception(s, kind) is None {
                                assert(kind == f.skip(8));
                                reveal_strlit("prometheus_scrape");
                                reveal_strlit("prometheus_remote_write");
                                if n == 0 {
                                    assert(kind =~= "prometheus_scrape"@);
                                } else {
                                    assert(kind =~= "prometheus_remote_write"@);
                                }
                            }
                            assert(f.skip(8).len() != "prometheus"@.len());
                        },
                        Section::Transforms => {
                            assert(f.take(10)[0] != section_name(s)[0]);
                        },
                        Section::Sinks => {
                            assert(f.take(5)[1] != section_name(s)[1]);
                        },
                    }
                }
            }
        }
    }
    assert(sep[0] == "sources-prometheus_scrape"@);
    assert(sep[1] == "sources-prometheus_remote_write"@);
}

/// A sink component whose kind the sinks' exception table does not list needs
/// the feature `sinks-<kind>`, and the derived list holds it.
pub proof fn lemma_unlisted_sink_kind(c: SingerConfig, r: Seq<Seq<char>>, i: int)
    requires
        lists(r, required_features(c)),
        0 <= i < c.sinks.len(),
        exception(Section::Sinks, c.sinks@[i].kind@) is None,
    ensures
        r.contains("sinks-"@ + c.sinks@[i].kind@),
{
    reveal_strlit("sinks-");
    reveal_strlit("sinks");
    reveal_strlit("-");
    reveal_strlit("transforms-log_to_metric");
    let f = "sinks-"@ + c.sinks@[i].kind@;
    assert(feature_of(Section::Sinks, c.sinks@[i].kind@) =~= f);
    assert(section_features(Section::Sinks, c.sinks@).contains(f));
    assert(f[0] != suppressed()[0]);
    assert(required_features(c).contains(f));
}

} // verus!
