use omniinfer::json::Json;
use omniinfer::resources::budget::{
    assign_component, distribute_component, BudgetComponent, ResourceBudget,
};
use omniinfer::resources::domains::{merge_domain_totals, DomainBytes, MemoryDomain};
use omniinfer::resources::estimate::{
    artifact_size_bytes, build_runtime_resource_budget, checked_scaled, cuda_available_bytes,
    detect_available_resources, listed_cuda_devices, parse_cuda_devices, Artifact, GIB, MIB,
};
use omniinfer::resources::ledger::{ResourceCapacity, ResourceLedger};

const DEFAULT_CONTEXT: u32 = 4096;

fn cuda(id: &str) -> MemoryDomain {
    MemoryDomain::Cuda(id.to_string())
}

fn amounts(entries: &[(MemoryDomain, u64)]) -> DomainBytes {
    let mut bytes = DomainBytes::new();
    for (domain, amount) in entries {
        bytes.set(domain, *amount);
    }
    bytes
}

fn part(name: &str, domain: MemoryDomain, bytes: u64) -> BudgetComponent {
    BudgetComponent { name: name.to_string(), domain, bytes }
}

fn host_budget(bytes: u64) -> ResourceBudget {
    ResourceBudget::from_components(vec![part("total", MemoryDomain::Host, bytes)]).unwrap()
}

fn empty() -> Json {
    Json::Object(Vec::new())
}

fn split_into_domains() {
    let domains = vec![cuda("0"), cuda("1")];
    let components = distribute_component("weights", 101, &domains).unwrap();
    let budget = ResourceBudget::from_components(components).unwrap();
    assert_eq!(budget.domains().get(&cuda("0")), Some(51));
    assert_eq!(budget.domains().get(&cuda("1")), Some(50));
    assert!(budget.domains().get(&cuda("0,1")).is_none());
}

fn full_budget_per_device() {
    let domains = vec![cuda("0"), cuda("1")];
    let components = assign_component("weights", 101, &domains, true).unwrap();
    let budget = ResourceBudget::from_components(components).unwrap();
    assert_eq!(budget.domains().get(&cuda("0")), Some(101));
    assert_eq!(budget.domains().get(&cuda("1")), Some(101));
}

fn explicit_budget_is_too_small() {
    let stated =
        Json::Object(vec![("resource_budget_bytes".to_string(), Json::Unsigned(1024))]);
    let result = build_runtime_resource_budget(
        &stated,
        &Vec::new(),
        artifact_size_bytes(&Artifact::File(1024)),
        Ok(None),
        512,
        DEFAULT_CONTEXT,
        &None,
        false,
        false,
    );
    assert!(result.is_err());
}

#[test]
fn runtime_manager_multi_gpu_components_are_split_into_non_overlapping_domains() {
    split_into_domains();
}

#[test]
fn tests_multi_gpu_components_are_split_into_non_overlapping_domains() {
    split_into_domains();
}

#[test]
fn runtime_manager_uncertain_multi_gpu_mapping_reserves_full_budget_per_device() {
    full_budget_per_device();
}

#[test]
fn tests_uncertain_multi_gpu_mapping_reserves_full_budget_per_device() {
    full_budget_per_device();
}

#[test]
fn runtime_manager_explicit_budget_cannot_understate_local_estimate() {
    explicit_budget_is_too_small();
}

#[test]
fn tests_explicit_budget_cannot_understate_local_estimate() {
    explicit_budget_is_too_small();
}

fn component(budget: &ResourceBudget, name: &str) -> u64 {
    budget.components().iter().find(|component| component.name == name).unwrap().bytes
}

#[test]
fn visual_projector_does_not_change_model_context_components() {
    let capabilities = vec!["cuda".to_string()];
    let devices = Some("0".to_string());
    let weights = || artifact_size_bytes(&Artifact::File(5 * GIB));
    let text = build_runtime_resource_budget(
        &empty(),
        &capabilities,
        weights(),
        Ok(None),
        2048,
        DEFAULT_CONTEXT,
        &devices,
        false,
        false,
    )
    .unwrap();
    let visual = build_runtime_resource_budget(
        &empty(),
        &capabilities,
        weights(),
        artifact_size_bytes(&Artifact::File(GIB)),
        2048,
        DEFAULT_CONTEXT,
        &devices,
        false,
        false,
    )
    .unwrap();
    for name in ["kv_cache", "activation"] {
        assert_eq!(component(&text, name), component(&visual, name), "component {name}");
    }
    assert!(visual.components().iter().any(|component| component.name == "mmproj"));
    for name in ["framework_overhead", "allocator_slack"] {
        assert!(component(&visual, name) > component(&text, name), "component {name}");
    }
    assert!(visual.domains().get(&cuda("0")) > text.domains().get(&cuda("0")));
}

#[test]
fn shares_of_a_component_add_up() {
    let domains = vec![cuda("0"), cuda("1"), cuda("2")];
    let shares = distribute_component("weights", 11, &domains).unwrap();
    assert_eq!(shares.iter().map(|share| share.bytes).collect::<Vec<_>>(), vec![4, 4, 3]);
    assert!(distribute_component("weights", 11, &Vec::new()).is_err());
    let one = assign_component("weights", 11, &domains, false).unwrap();
    assert_eq!(one.iter().map(|share| share.bytes).sum::<u64>(), 11);
}

#[test]
fn totals_that_do_not_fit_are_refused() {
    let parts = vec![part("a", MemoryDomain::Host, u64::MAX), part("b", MemoryDomain::Host, 1)];
    assert!(ResourceBudget::from_components(parts).is_err());
    let left = amounts(&[(MemoryDomain::Host, u64::MAX)]);
    let right = amounts(&[(MemoryDomain::Host, 1)]);
    assert!(merge_domain_totals(&left, &right).is_err());
    let right = amounts(&[(cuda("0"), 7)]);
    let merged = merge_domain_totals(&left, &right).unwrap();
    assert_eq!(merged.get(&MemoryDomain::Host), Some(u64::MAX));
    assert_eq!(merged.get(&cuda("0")), Some(7));
    assert!(merged.total().is_none());
    assert_eq!(merged.maximum(), u64::MAX);
}

#[test]
fn scaling_is_checked() {
    assert_eq!(checked_scaled(10, 3, 4).unwrap(), 7);
    assert!(checked_scaled(u64::MAX, 2, 1).is_err());
}

#[test]
fn artifacts_have_the_size_of_their_files() {
    assert_eq!(artifact_size_bytes(&Artifact::Missing).unwrap(), None);
    assert_eq!(artifact_size_bytes(&Artifact::File(7)).unwrap(), Some(7));
    assert_eq!(artifact_size_bytes(&Artifact::Directory(vec![1, 2, 3])).unwrap(), Some(6));
    assert!(artifact_size_bytes(&Artifact::Directory(vec![u64::MAX, 1])).is_err());
}

#[test]
fn devices_are_read_from_their_list() {
    assert_eq!(parse_cuda_devices(" 0, 1 ,,2"), vec!["0", "1", "2"]);
    assert_eq!(listed_cuda_devices("0\n1\n").unwrap(), vec!["0", "1"]);
}

#[test]
fn free_memory_is_read_per_device() {
    let report = "0, GPU-aaaa, 1024\n1, GPU-bbbb, 2048\n";
    match cuda_available_bytes("0,1", report) {
        Ok(bytes) => {
            assert_eq!(bytes.get(&cuda("0")), Some(1024 * MIB));
            assert_eq!(bytes.get(&cuda("1")), Some(2048 * MIB));
        }
        Err(e) => panic!("{}", e.message),
    }
    let both = detect_available_resources(5, Some(Ok(amounts(&[(cuda("0"), 3)])))).unwrap();
    assert_eq!(both.get(&MemoryDomain::Host), Some(5));
    assert_eq!(both.get(&cuda("0")), Some(3));
}

#[test]
fn a_longer_context_costs_more() {
    let estimate = |ctx: u32| {
        build_runtime_resource_budget(
            &empty(),
            &Vec::new(),
            Ok(Some(GIB)),
            Ok(None),
            ctx,
            DEFAULT_CONTEXT,
            &None,
            false,
            false,
        )
        .unwrap()
        .domains()
        .get(&MemoryDomain::Host)
        .unwrap()
    };
    assert!(estimate(65536) > estimate(4096));
}

#[test]
fn a_reservation_that_is_rolled_back_leaves_nothing() {
    let mut ledger =
        ResourceLedger::new(ResourceCapacity::new(1, amounts(&[(MemoryDomain::Host, 1024)])));
    let id = ledger.reserve("first", &host_budget(768)).unwrap();
    let error = ledger.reserve("second", &host_budget(512)).unwrap_err();
    assert!(!error.message.is_empty());
    assert_eq!(ledger.snapshot().reserved.get(&MemoryDomain::Host), Some(768));
    assert_eq!(
        ledger.snapshot().available().unwrap().get(&MemoryDomain::Host),
        Some(256)
    );
    assert!(ledger.rollback(id));
    assert!(!ledger.rollback(id));
    assert!(ledger.snapshot().reserved.is_empty());
    assert!(ledger.reserve("third", &host_budget(512)).is_ok());
}

#[test]
fn what_is_committed_stays_until_it_is_released() {
    let mut ledger =
        ResourceLedger::new(ResourceCapacity::new(1, amounts(&[(MemoryDomain::Host, 1024)])));
    let id = ledger.reserve("load", &host_budget(600)).unwrap();
    let allocation = ledger.commit(id).unwrap();
    assert!(ledger.commit(id).is_err());
    assert_eq!(ledger.snapshot().committed.get(&MemoryDomain::Host), Some(600));
    assert!(ledger.release(allocation));
    assert!(!ledger.release(allocation));
    assert!(ledger.snapshot().committed.is_empty());
}

#[test]
fn an_old_snapshot_does_not_replace_a_newer_one() {
    let mut ledger =
        ResourceLedger::new(ResourceCapacity::new(5, amounts(&[(MemoryDomain::Host, 1024)])));
    assert!(ledger
        .update_capacity(ResourceCapacity::new(4, amounts(&[(MemoryDomain::Host, 1)])))
        .is_err());
    assert!(ledger
        .update_capacity(ResourceCapacity::new(6, amounts(&[(MemoryDomain::Host, 2048)])))
        .is_ok());
    assert_eq!(ledger.snapshot().capacities.get(&MemoryDomain::Host), Some(2048));
}

#[test]
fn memories_have_names() {
    assert_eq!(MemoryDomain::Host.key(), "host");
    assert_eq!(cuda("1").key(), "cuda:1");
    assert_eq!(MemoryDomain::Unified("gpu0".to_string()).key(), "unified:gpu0");
}
