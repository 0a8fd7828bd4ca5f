use functional_kube::snapshot::{
    get_namespaced, insert_cluster_scoped, insert_namespaced, ClusterStore, NamespacedStore,
};
use k8s_openapi::api;
use k8s_openapi::apimachinery::pkg::apis::meta::v1::ObjectMeta;
use kube::ResourceExt;

fn make_configmap(namespace: &str, name: &str) -> api::core::v1::ConfigMap {
    api::core::v1::ConfigMap {
        metadata: ObjectMeta {
            name: Some(name.to_string()),
            namespace: Some(namespace.to_string()),
            ..Default::default()
        },
        ..Default::default()
    }
}

fn make_cluster_configmap(name: &str) -> api::core::v1::ConfigMap {
    api::core::v1::ConfigMap {
        metadata: ObjectMeta {
            name: Some(name.to_string()),
            ..Default::default()
        },
        ..Default::default()
    }
}

/// Stores a resource under the namespace and name of its metadata.
fn store_namespaced(store: &mut NamespacedStore<api::core::v1::ConfigMap>, resource: api::core::v1::ConfigMap) {
    let namespace = resource.namespace();
    let name = resource.name_any();
    insert_namespaced(store, namespace, name, resource);
}

/// Stores a cluster-scoped resource under the name of its metadata.
fn store_cluster_scoped(store: &mut ClusterStore<api::core::v1::ConfigMap>, resource: api::core::v1::ConfigMap) {
    let name = resource.name_any();
    insert_cluster_scoped(store, name, resource);
}

#[test]
fn insert_and_retrieve_namespaced() {
    let mut store = NamespacedStore::new();
    store_namespaced(&mut store, make_configmap("default", "my-cm"));

    let result = get_namespaced(&store, "default", "my-cm");
    assert!(result.is_some());
    assert_eq!(result.unwrap().metadata.name.as_deref(), Some("my-cm"));
}

#[test]
fn namespaced_missing_key_returns_none() {
    let store: NamespacedStore<api::core::v1::ConfigMap> = NamespacedStore::new();
    assert!(get_namespaced(&store, "default", "nonexistent").is_none());
}

#[test]
fn namespaced_wrong_namespace_returns_none() {
    let mut store = NamespacedStore::new();
    store_namespaced(&mut store, make_configmap("default", "my-cm"));
    assert!(get_namespaced(&store, "other", "my-cm").is_none());
}

#[test]
fn insert_and_retrieve_cluster_scoped() {
    let mut store = ClusterStore::new();
    store_cluster_scoped(&mut store, make_cluster_configmap("global-cm"));

    assert!(store.get("global-cm").is_some());
    assert_eq!(
        store.get("global-cm").unwrap().metadata.name.as_deref(),
        Some("global-cm")
    );
}

#[test]
fn cluster_scoped_missing_key_returns_none() {
    let store: ClusterStore<api::core::v1::ConfigMap> = ClusterStore::new();
    assert!(store.get("nonexistent").is_none());
}

// Further cases.

#[test]
fn namespaced_insert_replaces_same_key() {
    let mut store: NamespacedStore<u32> = NamespacedStore::new();
    assert_eq!(store.insert("ns".to_string(), "a".to_string(), 1), None);
    assert_eq!(store.insert("ns".to_string(), "b".to_string(), 2), None);
    assert_eq!(store.insert("ns".to_string(), "a".to_string(), 3), Some(1));
    assert_eq!(get_namespaced(&store, "ns", "a"), Some(&3));
    assert_eq!(get_namespaced(&store, "ns", "b"), Some(&2));
    assert_eq!(get_namespaced(&store, "other", "a"), None);
}

#[test]
fn namespaced_without_namespace_uses_empty_namespace() {
    let mut store: NamespacedStore<u32> = NamespacedStore::new();
    insert_namespaced(&mut store, None, "x".to_string(), 7);
    assert_eq!(get_namespaced(&store, "", "x"), Some(&7));
    assert_eq!(store.get("default", "x"), None);
}

#[test]
fn cluster_insert_replaces_same_name() {
    let mut store: ClusterStore<u32> = ClusterStore::new();
    assert_eq!(store.insert("a".to_string(), 1), None);
    assert_eq!(store.insert("a".to_string(), 2), Some(1));
    insert_cluster_scoped(&mut store, "b".to_string(), 5);
    assert_eq!(store.get("a"), Some(&2));
    assert_eq!(store.get("b"), Some(&5));
}
