//! Catalogue metadata for every curated shape factory.
//!
//! Each [`Entry`] names a library (`aws`, `azure`, `gcp`, `k8s`, `client`
//! or `generic`), the factory key as it appears in `<library>.<key>`, and
//! a category label used to group listings. Entries are in display order:
//! grouped by library, then category, then alphabetical by key.

use vstd::prelude::*;
use crate::text::{push_char, push_str, str_eq};

verus! {

/// One row in the curated factory catalogue.
#[derive(Debug, Clone, Copy, PartialEq, Eq)]
pub struct Entry {
    /// Library namespace.
    pub library: &'static str,
    /// Factory key as it appears in `<library>.<key>` form.
    pub key: &'static str,
    /// Human-friendly grouping label.
    pub category: &'static str,
}

/// An entry as text: library, key, category.
pub type EntryV = (Seq<char>, Seq<char>, Seq<char>);

impl View for Entry {
    type V = EntryV;

    open spec fn view(&self) -> EntryV {
        (self.library@, self.key@, self.category@)
    }
}

impl Entry {
    /// The `library.key` form, the node kinds the JSON schema accepts.
    pub fn qualified_kind(&self) -> (r: String)
        ensures
            r@ == self.library@ + seq!['.'] + self.key@,
    {
        let mut s = String::new();
        push_str(&mut s, self.library);
        push_char(&mut s, '.');
        push_str(&mut s, self.key);
        s
    }
}

/// Every curated factory, in display order.
pub open spec fn catalogue() -> Seq<EntryV> {
    seq![
        ("aws"@, "api_gateway"@, "Application Integration"@),
        ("aws"@, "appsync"@, "Application Integration"@),
        ("aws"@, "eventbridge"@, "Application Integration"@),
        ("aws"@, "sns"@, "Application Integration"@),
        ("aws"@, "sqs"@, "Application Integration"@),
        ("aws"@, "step_functions"@, "Application Integration"@),
        ("aws"@, "app_runner"@, "Compute"@),
        ("aws"@, "batch"@, "Compute"@),
        ("aws"@, "ec2"@, "Compute"@),
        ("aws"@, "ecs"@, "Compute"@),
        ("aws"@, "eks"@, "Compute"@),
        ("aws"@, "fargate"@, "Compute"@),
        ("aws"@, "lambda"@, "Compute"@),
        ("aws"@, "dynamodb"@, "Database"@),
        ("aws"@, "elasticache"@, "Database"@),
        ("aws"@, "rds"@, "Database"@),
        ("aws"@, "efs"@, "Storage"@),
        ("aws"@, "s3"@, "Storage"@),
        ("aws"@, "cloudfront"@, "Networking & Content Delivery"@),
        ("aws"@, "elastic_load_balancing"@, "Networking & Content Delivery"@),
        ("aws"@, "route_53"@, "Networking & Content Delivery"@),
        ("aws"@, "vpc"@, "Networking & Content Delivery"@),
        ("aws"@, "cognito"@, "Security, Identity & Compliance"@),
        ("aws"@, "iam"@, "Security, Identity & Compliance"@),
        ("aws"@, "kms"@, "Security, Identity & Compliance"@),
        ("aws"@, "secrets_manager"@, "Security, Identity & Compliance"@),
        ("aws"@, "athena"@, "Analytics"@),
        ("aws"@, "kinesis"@, "Analytics"@),
        ("aws"@, "msk"@, "Analytics"@),
        ("aws"@, "opensearch"@, "Analytics"@),
        ("aws"@, "cloudwatch"@, "Management & Governance"@),
        ("azure"@, "active_directory"@, "Identity"@),
        ("azure"@, "entra_id"@, "Identity"@),
        ("azure"@, "multi_factor_authentication"@, "Identity"@),
        ("azure"@, "cache"@, "Database"@),
        ("azure"@, "sql_database"@, "Database"@),
        ("azure"@, "cloud_service"@, "Compute"@),
        ("azure"@, "server"@, "Compute"@),
        ("azure"@, "virtual_machine"@, "Compute"@),
        ("azure"@, "website"@, "Compute"@),
        ("azure"@, "storage"@, "Storage"@),
        ("azure"@, "storage_blob"@, "Storage"@),
        ("azure"@, "storage_queue"@, "Storage"@),
        ("azure"@, "cdn"@, "Networking"@),
        ("azure"@, "express_route"@, "Networking"@),
        ("azure"@, "load_balancer"@, "Networking"@),
        ("azure"@, "traffic_manager"@, "Networking"@),
        ("azure"@, "virtual_network"@, "Networking"@),
        ("azure"@, "notification_hub"@, "Integration"@),
        ("azure"@, "service_bus"@, "Integration"@),
        ("client"@, "browser"@, "Actors"@),
        ("client"@, "external_system"@, "Actors"@),
        ("client"@, "mobile"@, "Actors"@),
        ("client"@, "person"@, "Actors"@),
        ("generic"@, "cloud"@, "Infrastructure"@),
        ("generic"@, "database"@, "Infrastructure"@),
        ("generic"@, "document"@, "Infrastructure"@),
        ("generic"@, "queue"@, "Infrastructure"@),
        ("gcp"@, "app_engine"@, "Compute"@),
        ("gcp"@, "cloud_functions"@, "Compute"@),
        ("gcp"@, "compute_engine"@, "Compute"@),
        ("gcp"@, "gke"@, "Compute"@),
        ("gcp"@, "cloud_storage"@, "Storage"@),
        ("gcp"@, "bigquery"@, "Big Data"@),
        ("gcp"@, "bigtable"@, "Big Data"@),
        ("gcp"@, "pubsub"@, "Big Data"@),
        ("gcp"@, "cloud_datastore"@, "Database"@),
        ("gcp"@, "cloud_sql"@, "Database"@),
        ("gcp"@, "cloud_cdn"@, "Networking"@),
        ("gcp"@, "cloud_dns"@, "Networking"@),
        ("gcp"@, "cloud_load_balancing"@, "Networking"@),
        ("gcp"@, "iam"@, "Identity & Security"@),
        ("gcp"@, "logging"@, "Management Tools"@),
        ("k8s"@, "deployment"@, "Workloads"@),
        ("k8s"@, "pod"@, "Workloads"@),
        ("k8s"@, "replica_set"@, "Workloads"@),
        ("k8s"@, "ingress"@, "Networking"@),
        ("k8s"@, "service"@, "Networking"@),
        ("k8s"@, "config_map"@, "Configuration"@),
        ("k8s"@, "secret"@, "Configuration"@),
        ("k8s"@, "namespace"@, "Cluster"@),
        ("k8s"@, "node"@, "Cluster"@),
        ("k8s"@, "persistent_volume"@, "Storage"@)
    ]
}

/// The entries of `es` whose library is `library`, in order.
pub open spec fn entries_in(es: Seq<EntryV>, library: Seq<char>) -> Seq<EntryV>
    decreases es.len(),
{
    if es.len() == 0 {
        Seq::empty()
    } else {
        let prev = entries_in(es.drop_last(), library);
        if es.last().0 == library {
            prev.push(es.last())
        } else {
            prev
        }
    }
}

/// The six library names.
pub open spec fn is_library(library: Seq<char>) -> bool {
    library == "aws"@ || library == "azure"@ || library == "gcp"@ || library == "k8s"@ || library == "client"@
        || library == "generic"@
}

/// The entries `for_library(library)` selects: those of the named
/// library, or every entry for `"all"` or any other name.
pub open spec fn library_entries(library: Seq<char>) -> Seq<EntryV> {
    if is_library(library) {
        entries_in(catalogue(), library)
    } else {
        catalogue()
    }
}

pub open spec fn entries_view(v: Seq<Entry>) -> Seq<EntryV> {
    v.map_values(|e: Entry| e@)
}

/// Every curated factory, in display order.
#[verifier::rlimit(40)]
pub fn entries() -> (v: Vec<Entry>)
    ensures
        entries_view(v@) == catalogue(),
{
    let mut v: Vec<Entry> = Vec::new();
    v.push(Entry { library: "aws", key: "api_gateway", category: "Application Integration" });
    v.push(Entry { library: "aws", key: "appsync", category: "Application Integration" });
    v.push(Entry { library: "aws", key: "eventbridge", category: "Application Integration" });
    v.push(Entry { library: "aws", key: "sns", category: "Application Integration" });
    v.push(Entry { library: "aws", key: "sqs", category: "Application Integration" });
    v.push(Entry { library: "aws", key: "step_functions", category: "Application Integration" });
    v.push(Entry { library: "aws", key: "app_runner", category: "Compute" });
    v.push(Entry { library: "aws", key: "batch", category: "Compute" });
    v.push(Entry { library: "aws", key: "ec2", category: "Compute" });
    v.push(Entry { library: "aws", key: "ecs", category: "Compute" });
    v.push(Entry { library: "aws", key: "eks", category: "Compute" });
    v.push(Entry { library: "aws", key: "fargate", category: "Compute" });
    v.push(Entry { library: "aws", key: "lambda", category: "Compute" });
    v.push(Entry { library: "aws", key: "dynamodb", category: "Database" });
    v.push(Entry { library: "aws", key: "elasticache", category: "Database" });
    v.push(Entry { library: "aws", key: "rds", category: "Database" });
    v.push(Entry { library: "aws", key: "efs", category: "Storage" });
    v.push(Entry { library: "aws", key: "s3", category: "Storage" });
    v.push(Entry { library: "aws", key: "cloudfront", category: "Networking & Content Delivery" });
    v.push(Entry { library: "aws", key: "elastic_load_balancing", category: "Networking & Content Delivery" });
    v.push(Entry { library: "aws", key: "route_53", category: "Networking & Content Delivery" });
    v.push(Entry { library: "aws", key: "vpc", category: "Networking & Content Delivery" });
    v.push(Entry { library: "aws", key: "cognito", category: "Security, Identity & Compliance" });
    v.push(Entry { library: "aws", key: "iam", category: "Security, Identity & Compliance" });
    v.push(Entry { library: "aws", key: "kms", category: "Security, Identity & Compliance" });
    v.push(Entry { library: "aws", key: "secrets_manager", category: "Security, Identity & Compliance" });
    v.push(Entry { library: "aws", key: "athena", category: "Analytics" });
    v.push(Entry { library: "aws", key: "kinesis", category: "Analytics" });
    v.push(Entry { library: "aws", key: "msk", category: "Analytics" });
    v.push(Entry { library: "aws", key: "opensearch", category: "Analytics" });
    v.push(Entry { library: "aws", key: "cloudwatch", category: "Management & Governance" });
    v.push(Entry { library: "azure", key: "active_directory", category: "Identity" });
    v.push(Entry { library: "azure", key: "entra_id", category: "Identity" });
    v.push(Entry { library: "azure", key: "multi_factor_authentication", category: "Identity" });
    v.push(Entry { library: "azure", key: "cache", category: "Database" });
    v.push(Entry { library: "azure", key: "sql_database", category: "Database" });
    v.push(Entry { library: "azure", key: "cloud_service", category: "Compute" });
    v.push(Entry { library: "azure", key: "server", category: "Compute" });
    v.push(Entry { library: "azure", key: "virtual_machine", category: "Compute" });
    v.push(Entry { library: "azure", key: "website", category: "Compute" });
    v.push(Entry { library: "azure", key: "storage", category: "Storage" });
    v.push(Entry { library: "azure", key: "storage_blob", category: "Storage" });
    v.push(Entry { library: "azure", key: "storage_queue", category: "Storage" });
    v.push(Entry { library: "azure", key: "cdn", category: "Networking" });
    v.push(Entry { library: "azure", key: "express_route", category: "Networking" });
    v.push(Entry { library: "azure", key: "load_balancer", category: "Networking" });
    v.push(Entry { library: "azure", key: "traffic_manager", category: "Networking" });
    v.push(Entry { library: "azure", key: "virtual_network", category: "Networking" });
    v.push(Entry { library: "azure", key: "notification_hub", category: "Integration" });
    v.push(Entry { library: "azure", key: "service_bus", category: "Integration" });
    v.push(Entry { library: "client", key: "browser", category: "Actors" });
    v.push(Entry { library: "client", key: "external_system", category: "Actors" });
    v.push(Entry { library: "client", key: "mobile", category: "Actors" });
    v.push(Entry { library: "client", key: "person", category: "Actors" });
    v.push(Entry { library: "generic", key: "cloud", category: "Infrastructure" });
    v.push(Entry { library: "generic", key: "database", category: "Infrastructure" });
    v.push(Entry { library: "generic", key: "document", category: "Infrastructure" });
    v.push(Entry { library: "generic", key: "queue", category: "Infrastructure" });
    v.push(Entry { library: "gcp", key: "app_engine", category: "Compute" });
    v.push(Entry { library: "gcp", key: "cloud_functions", category: "Compute" });
    v.push(Entry { library: "gcp", key: "compute_engine", category: "Compute" });
    v.push(Entry { library: "gcp", key: "gke", category: "Compute" });
    v.push(Entry { library: "gcp", key: "cloud_storage", category: "Storage" });
    v.push(Entry { library: "gcp", key: "bigquery", category: "Big Data" });
    v.push(Entry { library: "gcp", key: "bigtable", category: "Big Data" });
    v.push(Entry { library: "gcp", key: "pubsub", category: "Big Data" });
    v.push(Entry { library: "gcp", key: "cloud_datastore", category: "Database" });
    v.push(Entry { library: "gcp", key: "cloud_sql", category: "Database" });
    v.push(Entry { library: "gcp", key: "cloud_cdn", category: "Networking" });
    v.push(Entry { library: "gcp", key: "cloud_dns", category: "Networking" });
    v.push(Entry { library: "gcp", key: "cloud_load_balancing", category: "Networking" });
    v.push(Entry { library: "gcp", key: "iam", category: "Identity & Security" });
    v.push(Entry { library: "gcp", key: "logging", category: "Management Tools" });
    v.push(Entry { library: "k8s", key: "deployment", category: "Workloads" });
    v.push(Entry { library: "k8s", key: "pod", category: "Workloads" });
    v.push(Entry { library: "k8s", key: "replica_set", category: "Workloads" });
    v.push(Entry { library: "k8s", key: "ingress", category: "Networking" });
    v.push(Entry { library: "k8s", key: "service", category: "Networking" });
    v.push(Entry { library: "k8s", key: "config_map", category: "Configuration" });
    v.push(Entry { library: "k8s", key: "secret", category: "Configuration" });
    v.push(Entry { library: "k8s", key: "namespace", category: "Cluster" });
    v.push(Entry { library: "k8s", key: "node", category: "Cluster" });
    v.push(Entry { library: "k8s", key: "persistent_volume", category: "Storage" });
    assert(entries_view(v@) =~= catalogue());
    v
}

/// Select catalogue entries by library prefix; `"all"` (or any name that
/// is not one of the six libraries) selects every entry.
pub fn for_library(library: &str) -> (r: Vec<Entry>)
    ensures
        entries_view(r@) == library_entries(library@),
{
    let all = entries();
    if !(str_eq(library, "aws") || str_eq(library, "azure") || str_eq(library, "gcp") || str_eq(library, "k8s")
        || str_eq(library, "client") || str_eq(library, "generic")) {
        return all;
    }
    let mut out: Vec<Entry> = Vec::new();
    let mut i: usize = 0;
    while i < all.len()
        invariant
            0 <= i <= all@.len(),
            entries_view(all@) == catalogue(),
            entries_view(out@) == entries_in(entries_view(all@).take(i as int), library@),
        decreases all@.len() - i,
    {
        let e = all[i];
        let ghost before = out@;
        if str_eq(e.library, library) {
            out.push(e);
        }
        proof {
            let t = entries_view(all@).take(i + 1);
            assert(t.drop_last() =~= entries_view(all@).take(i as int));
            assert(t.last() == e@);
            if e.library@ == library@ {
                assert(entries_view(out@) =~= entries_view(before).push(e@));
            } else {
                assert(entries_view(out@) =~= entries_view(before));
            }
        }
        i = i + 1;
    }
    assert(entries_view(all@).take(all@.len() as int) =~= entries_view(all@));
    out
}

/// Whether an entry belongs to `library`.
pub open spec fn in_library(library: Seq<char>) -> spec_fn(EntryV) -> bool {
    |e: EntryV| e.0 == library
}

/// The catalogue entries of library `library`, in catalogue order.
pub open spec fn of_library(library: Seq<char>) -> Seq<EntryV> {
    catalogue().filter(in_library(library))
}

proof fn lemma_entries_in_is_filter(es: Seq<EntryV>, library: Seq<char>)
    ensures
        entries_in(es, library) == es.filter(in_library(library)),
        forall|i: int| 0 <= i < entries_in(es, library).len() ==> #[trigger] entries_in(es, library)[i].0 == library,
    decreases es.len(),
{
    reveal(Seq::filter);
    if es.len() > 0 {
        lemma_entries_in_is_filter(es.drop_last(), library);
    }
}

/// Selecting one of the six libraries gives exactly that library's
/// entries, in catalogue order: every entry returned belongs to it and
/// every entry of it is returned. `"all"`, like any other name, gives the
/// whole catalogue.
pub proof fn law_library_selection(library: Seq<char>)
    ensures
        seq!["generic"@, "client"@, "k8s"@, "gcp"@, "azure"@, "aws"@].contains(library) ==> library_entries(library)
            == of_library(library) && forall|i: int|
            0 <= i < library_entries(library).len() ==> #[trigger] library_entries(library)[i].0 == library,
        library == "all"@ ==> library_entries(library) == catalogue(),
{
    lemma_entries_in_is_filter(catalogue(), library);
    reveal_strlit("all");
    reveal_strlit("aws");
    reveal_strlit("azure");
    reveal_strlit("gcp");
    reveal_strlit("k8s");
    reveal_strlit("client");
    reveal_strlit("generic");
    if library == "all"@ {
        assert(library.len() == 3 && library[1] == 'l');
        assert("aws"@[1] == 'w' && "gcp"@[1] == 'c' && "k8s"@[1] == '8');
    }
}

} // verus!
