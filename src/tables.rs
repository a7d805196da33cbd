//! Section names and the per-section exception tables that map several
//! component kinds onto one shared feature.
use vstd::prelude::*;
use crate::config::Section;
use crate::order::compare;

verus! {

/// The name of a section as it appears in the configuration and in features.
pub open spec fn section_name(s: Section) -> Seq<char> {
    match s {
        Section::Sources => "sources"@,
        Section::Transforms => "transforms"@,
        Section::Sinks => "sinks"@,
    }
}

/// The exception table of a section: the shared feature that a component kind
/// maps to, if the table lists the kind.
pub open spec fn exception(s: Section, kind: Seq<char>) -> Option<Seq<char>> {
    match s {
        Section::Sources => {
            if kind == "prometheus_scrape"@ || kind == "prometheus_remote_write"@ {
                Some("prometheus"@)
            } else {
                None
            }
        },
        Section::Transforms => None,
        Section::Sinks => {
            if kind == "gcp_pubsub"@ || kind == "gcp_stackdriver_logs"@ || kind
                == "gcp_stackdriver_metrics"@ {
                Some("gcp"@)
            } else if kind == "prometheus_remote_write"@ {
                Some("prometheus"@)
            } else if kind == "splunk_hec_logs"@ {
                Some("splunk_hec"@)
            } else {
                None
            }
        },
    }
}

/// The feature fragment of a component kind: its exception if the section's
/// table lists one, else the kind itself.
pub open spec fn resolved(s: Section, kind: Seq<char>) -> Seq<char> {
    match exception(s, kind) {
        Some(f) => f,
        None => kind,
    }
}

/// The feature that a component of the given kind in the given section needs:
/// `<section>-<resolved kind>`.
pub open spec fn feature_of(s: Section, kind: Seq<char>) -> Seq<char> {
    section_name(s) + "-"@ + resolved(s, kind)
}

/// The name of a section.
pub fn section_key(s: Section) -> (r: &'static str)
    ensures
        r@ == section_name(s),
{
    match s {
        Section::Sources => "sources",
        Section::Transforms => "transforms",
        Section::Sinks => "sinks",
    }
}

/// Looks a component kind up in the exception table of a section.
pub fn exception_for(s: Section, kind: &str) -> (r: Option<&'static str>)
    ensures
        r is Some <==> exception(s, kind@) is Some,
        r matches Some(f) ==> exception(s, kind@) == Some(f@),
{
    match s {
        Section::Sources => {
            if compare(kind, "prometheus_scrape") == 0 || compare(kind, "prometheus_remote_write")
                == 0 {
                Some("prometheus")
            } else {
                None
            }
        },
        Section::Transforms => None,
        Section::Sinks => {
            if compare(kind, "gcp_pubsub") == 0 || compare(kind, "gcp_stackdriver_logs") == 0
                || compare(kind, "gcp_stackdriver_metrics") == 0 {
                Some("gcp")
            } else if compare(kind, "prometheus_remote_write") == 0 {
                Some("prometheus")
            } else if compare(kind, "splunk_hec_logs") == 0 {
                Some("splunk_hec")
            } else {
                None
            }
        },
    }
}

/// The feature that a component of kind `kind` in section `s` needs.
pub fn feature_name(s: Section, kind: &str) -> (r: String)
    ensures
        r@ == feature_of(s, kind@),
{
    let mut name = section_key(s).to_owned();
    name.append("-");
    match exception_for(s, kind) {
        Some(f) => name.append(f),
        None => name.append(kind),
    }
    name
}

} // verus!
