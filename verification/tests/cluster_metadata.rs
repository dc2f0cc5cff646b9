use rafka::broker::image::MetadataImage;
use rafka::broker::metadata::{
    collect_topics, created_topic_response, partition_config_for, plan_create_topics, topic_partition_configs,
    topic_partitions, MetadataRecord, PartitionRecord, TopicRecord,
};
use rafka::protocol::metadata::CreateTopicRequest;
use rafka::protocol::error_codes::ErrorCode;
use rafka::protocol::metadata::TopicRequest;

fn topic(name: &str) -> MetadataRecord {
    MetadataRecord::Topic(TopicRecord { name: name.to_string() })
}

fn partition(topic_id: &str, partition_id: u16) -> MetadataRecord {
    MetadataRecord::Partition(PartitionRecord { topic_id: topic_id.to_string(), partition_id, replicas: vec![], leader: 0 })
}

#[test]
fn records_group_into_topics_in_order_of_first_appearance() {
    let records = vec![
        topic("a"),
        partition("a", 0),
        topic("b"),
        partition("c", 0),
        topic("a"),
        partition("a", 1),
        partition("b", 0),
    ];
    let topics = collect_topics(records);
    assert_eq!(topics.len(), 2);
    assert_eq!(topics[0].0.name, "a");
    let ids: Vec<u16> = topics[0].1.iter().map(|p| p.partition_id).collect();
    assert_eq!(ids, vec![0, 1]);
    assert_eq!(topics[1].0.name, "b");
    assert_eq!(topics[1].1.len(), 1);
}

#[test]
fn partition_before_its_topic_is_dropped() {
    let topics = collect_topics(vec![partition("x", 0), topic("x")]);
    assert_eq!(topics.len(), 1);
    assert!(topics[0].1.is_empty());
}

#[test]
fn new_topic_gets_numbered_partitions() {
    let name = String::from("orders");
    let parts = topic_partitions(&name, 3);
    assert_eq!(parts.len(), 3);
    for (i, p) in parts.iter().enumerate() {
        assert_eq!(p.topic_id, "orders");
        assert_eq!(p.partition_id as usize, i);
        assert!(p.replicas.is_empty());
        assert_eq!(p.leader, 0);
    }
    assert!(topic_partitions(&name, 0).is_empty());
    assert!(topic_partitions(&name, -4).is_empty());
}

#[test]
fn created_topic_is_answered_without_error() {
    let req = TopicRequest { name: String::from("orders"), num_partitions: 3, replication_factor: 2, assignments: vec![] };
    let res = created_topic_response(&req);
    assert_eq!(res.name, "orders");
    assert_eq!(res.error_code, ErrorCode::NoError);
    assert_eq!(res.error_message, "");
    assert_eq!(res.num_partitions, 3);
    assert_eq!(res.replication_factor, 2);
}

#[test]
fn partition_config_follows_the_record() {
    let t = TopicRecord { name: String::from("orders") };
    let p = PartitionRecord { topic_id: String::from("orders"), partition_id: 4, replicas: vec![], leader: 7 };
    let cfg = partition_config_for(&String::from("/data"), &t, &p);
    assert_eq!(cfg.base_dir, "/data");
    assert_eq!(cfg.partition_id, 4);
    assert_eq!(cfg.broker_id, 7);
    assert_eq!(cfg.topic_id, "orders");
    assert_eq!(cfg.segment_bytes, 1 << 20);
}

#[test]
fn create_topics_plans_each_topic_in_order() {
    let req = CreateTopicRequest {
        topics: vec![
            TopicRequest { name: String::from("a"), num_partitions: 2, replication_factor: 1, assignments: vec![] },
            TopicRequest { name: String::from("b"), num_partitions: 1, replication_factor: 3, assignments: vec![] },
        ],
        timeout_ms: 100,
        validate_only: false,
    };
    let plan = plan_create_topics(&req);
    assert_eq!(plan.topics.len(), 2);
    assert_eq!(plan.topics[0].0.name, "a");
    assert_eq!(plan.topics[0].1.len(), 2);
    assert_eq!(plan.topics[1].1[0].topic_id, "b");
    assert_eq!(plan.responses[1].replication_factor, 3);
    assert_eq!(plan.responses[0].error_code, ErrorCode::NoError);
}

#[test]
fn created_partitions_join_the_image_by_name() {
    let t = TopicRecord { name: String::from("orders") };
    let parts = topic_partitions(&t.name, 2);
    let entries = topic_partition_configs(&String::from("/data"), &t, &parts);
    assert_eq!(entries.len(), 2);
    assert_eq!(entries[1].0.topic_id, "orders");
    assert_eq!(entries[1].0.partition_id, 1);
    assert_eq!(entries[1].1.base_dir, "/data");
    assert_eq!(entries[1].1.broker_id, 0);
}

#[test]
fn image_takes_created_partitions_and_replaces_by_name() {
    let path = String::from("/data");
    let t = TopicRecord { name: String::from("orders") };
    let image = MetadataImage::empty();
    let image = image.create_topic(&path, &t, &topic_partitions(&t.name, 2));
    assert_eq!(image.partitions.len(), 2);
    let again = vec![PartitionRecord { topic_id: String::from("orders"), partition_id: 1, replicas: vec![], leader: 5 }];
    let image = image.create_topic(&String::from("/other"), &t, &again);
    assert_eq!(image.partitions.len(), 2);
    let (key, cfg) = &image.partitions[1];
    assert_eq!(key.partition_id, 1);
    assert_eq!(cfg.broker_id, 5);
    assert_eq!(cfg.base_dir, "/other");
    assert_eq!(image.partitions[0].1.base_dir, "/data");
}
