//! The cluster's metadata as the controller keeps it: records of topics
//! and of their partitions, what a topic-creation request adds, and how
//! the records read back from the metadata log group into topics.

use vstd::prelude::*;
use crate::partition::config::PartitionConfig;
use crate::protocol::error_codes::ErrorCode;
use crate::protocol::metadata::{CreateTopicRequest, TopicRequest, TopicResponse};
use crate::topic::TopicPartition;

verus! {

#[derive(Debug, Clone)]
pub struct TopicRecord {
    pub name: String,
}

#[derive(Debug, Clone)]
pub struct PartitionRecord {
    pub topic_id: String,
    pub partition_id: u16,
    pub replicas: Vec<i32>,
    pub leader: i32,
}

#[derive(Debug)]
pub enum MetadataRecord {
    Topic(TopicRecord),
    Partition(PartitionRecord),
}

/// A partition record as plain values.
pub struct PartitionRecordView {
    pub topic_id: Seq<char>,
    pub partition_id: u16,
    pub replicas: Seq<i32>,
    pub leader: i32,
}

/// A metadata record as plain values.
pub enum MetadataRecordView {
    Topic(Seq<char>),
    Partition(PartitionRecordView),
}

pub open spec fn partition_record_view(p: PartitionRecord) -> PartitionRecordView {
    PartitionRecordView {
        topic_id: p.topic_id@,
        partition_id: p.partition_id,
        replicas: p.replicas@,
        leader: p.leader,
    }
}

pub open spec fn metadata_record_view(r: MetadataRecord) -> MetadataRecordView {
    match r {
        MetadataRecord::Topic(t) => MetadataRecordView::Topic(t.name@),
        MetadataRecord::Partition(p) => MetadataRecordView::Partition(partition_record_view(p)),
    }
}

/// A topic with its partition records, as plain values.
pub open spec fn topic_entry_view(e: (TopicRecord, Vec<PartitionRecord>)) -> (
    Seq<char>,
    Seq<PartitionRecordView>,
) {
    (e.0.name@, e.1@.map_values(|p: PartitionRecord| partition_record_view(p)))
}

pub open spec fn topic_entries_view(v: Seq<(TopicRecord, Vec<PartitionRecord>)>) -> Seq<
    (Seq<char>, Seq<PartitionRecordView>),
> {
    v.map_values(|e: (TopicRecord, Vec<PartitionRecord>)| topic_entry_view(e))
}

/// The first topic from `i` on named `name`, if any.
pub open spec fn find_topic(
    topics: Seq<(Seq<char>, Seq<PartitionRecordView>)>,
    name: Seq<char>,
    i: int,
) -> Option<int>
    decreases topics.len() - i,
{
    if i < 0 || i >= topics.len() {
        None
    } else if topics[i].0 == name {
        Some(i)
    } else {
        find_topic(topics, name, i + 1)
    }
}

/// The topics that the records describe, in the order their topic records
/// first appear: a topic record adds its topic unless one of that name is
/// there already; a partition record joins its topic, or is dropped when
/// its topic has not appeared yet.
pub open spec fn collected_topics(records: Seq<MetadataRecordView>) -> Seq<
    (Seq<char>, Seq<PartitionRecordView>),
>
    decreases records.len(),
{
    if records.len() == 0 {
        Seq::empty()
    } else {
        let topics = collected_topics(records.drop_last());
        match records.last() {
            MetadataRecordView::Topic(name) => match find_topic(topics, name, 0) {
                Some(_) => topics,
                None => topics.push((name, Seq::empty())),
            },
            MetadataRecordView::Partition(p) => match find_topic(topics, p.topic_id, 0) {
                Some(i) => topics.update(i, (topics[i].0, topics[i].1.push(p))),
                None => topics,
            },
        }
    }
}

proof fn lemma_find_topic(topics: Seq<(Seq<char>, Seq<PartitionRecordView>)>, name: Seq<char>, i: int)
    requires
        0 <= i <= topics.len(),
    ensures
        find_topic(topics, name, i) matches Some(k) ==> i <= k < topics.len() && topics[k].0 == name,
        find_topic(topics, name, i) is None ==> forall|k: int|
            i <= k < topics.len() ==> topics[k].0 != name,
        find_topic(topics, name, i) matches Some(k) ==> forall|j: int|
            i <= j < k ==> topics[j].0 != name,
    decreases topics.len() - i,
{
    if i < topics.len() && topics[i].0 != name {
        lemma_find_topic(topics, name, i + 1);
    }
}

/// Grouping records into topics never lists a topic twice.
pub proof fn lemma_collected_topics_distinct(records: Seq<MetadataRecordView>)
    ensures
        forall|i: int, j: int|
            0 <= i < j < collected_topics(records).len() ==> collected_topics(records)[i].0
                != collected_topics(records)[j].0,
    decreases records.len(),
{
    if records.len() > 0 {
        let front = records.drop_last();
        lemma_collected_topics_distinct(front);
        let topics = collected_topics(front);
        match records.last() {
            MetadataRecordView::Topic(name) => {
                lemma_find_topic(topics, name, 0);
            },
            MetadataRecordView::Partition(p) => {
                lemma_find_topic(topics, p.topic_id, 0);
            },
        }
    }
}

/// The position of the topic named `name` among `topics`, searched from
/// the start.
fn position_of_topic(topics: &Vec<(TopicRecord, Vec<PartitionRecord>)>, name: &String) -> (r: Option<
    usize,
>)
    ensures
        r matches Some(k) ==> find_topic(topic_entries_view(topics@), name@, 0) == Some(k as int),
        r is None ==> find_topic(topic_entries_view(topics@), name@, 0) is None,
{
    let ghost view = topic_entries_view(topics@);
    proof {
        lemma_find_topic(view, name@, 0);
    }
    let n = topics.len();
    let mut i: usize = 0;
    while i < n
        invariant
            n == topics@.len(),
            view == topic_entries_view(topics@),
            i <= n,
            find_topic(view, name@, i as int) == find_topic(view, name@, 0),
        decreases n - i,
    {
        if topics[i].0.name == *name {
            return Some(i);
        }
        i = i + 1;
    }
    None
}

/// Groups the records read back from the metadata log into topics, in the
/// order their topic records first appear.
pub fn collect_topics(records: Vec<MetadataRecord>) -> (r: Vec<(TopicRecord, Vec<PartitionRecord>)>)
    ensures
        topic_entries_view(r@) == collected_topics(
            records@.map_values(|m: MetadataRecord| metadata_record_view(m)),
        ),
{
    let ghost all = records@.map_values(|m: MetadataRecord| metadata_record_view(m));
    let mut topics: Vec<(TopicRecord, Vec<PartitionRecord>)> = Vec::new();
    let mut rest = records;
    let ghost given = rest@;
    proof {
        assert(all.take(0) =~= Seq::<MetadataRecordView>::empty());
    }
    let n = rest.len();
    let mut i: usize = 0;
    while i < n
        invariant
            n == given.len(),
            i <= n,
            all == given.map_values(|m: MetadataRecord| metadata_record_view(m)),
            rest@ == given.skip(i as int),
            topic_entries_view(topics@) == collected_topics(all.take(i as int)),
        decreases n - i,
    {
        let record = rest.remove(0);
        assert(record == given[i as int]);
        assert(rest@ =~= given.skip(i + 1));
        let ghost before = topic_entries_view(topics@);
        assert(all.take(i + 1).drop_last() =~= all.take(i as int));
        assert(all.take(i + 1).last() == metadata_record_view(record));
        proof {
            lemma_find_topic(before, match metadata_record_view(record) {
                MetadataRecordView::Topic(name) => name,
                MetadataRecordView::Partition(p) => p.topic_id,
            }, 0);
        }
        match record {
            MetadataRecord::Topic(t) => {
                match position_of_topic(&topics, &t.name) {
                    Some(_) => {},
                    None => {
                        topics.push((t, Vec::new()));
                        assert(topics@.last().1@.map_values(
                            |q: PartitionRecord| partition_record_view(q),
                        ) =~= Seq::<PartitionRecordView>::empty());
                        assert(topic_entries_view(topics@) =~= before.push(
                            (topics@.last().0.name@, Seq::<PartitionRecordView>::empty()),
                        ));
                    },
                }
            },
            MetadataRecord::Partition(p) => {
                match position_of_topic(&topics, &p.topic_id) {
                    Some(k) => {
                        let ghost pv = partition_record_view(p);
                        let mut entry = topics.remove(k);
                        let ghost old_parts = entry.1@;
                        entry.1.push(p);
                        assert(entry.1@.map_values(|q: PartitionRecord| partition_record_view(q))
                            =~= old_parts.map_values(|q: PartitionRecord| partition_record_view(q)).push(
                            pv,
                        ));
                        topics.insert(k, entry);
                        assert(topic_entries_view(topics@) =~= before.update(
                            k as int,
                            (before[k as int].0, before[k as int].1.push(pv)),
                        ));
                    },
                    None => {},
                }
            },
        }
        i = i + 1;
    }
    assert(all.take(n as int) =~= all);
    topics
}

/// The partition records a new topic gets: partitions numbered from 0 up
/// to the requested count (none for a count that is not positive), each
/// with no replicas and broker 0 as leader.
pub fn topic_partitions(name: &String, num_partitions: i32) -> (r: Vec<PartitionRecord>)
    ensures
        r@.len() == if num_partitions > 0 {
            num_partitions as int
        } else {
            0
        },
        forall|i: int|
            0 <= i < r@.len() ==> {
                &&& (#[trigger] r@[i]).topic_id@ == name@
                &&& r@[i].partition_id == i as u16
                &&& r@[i].replicas@.len() == 0
                &&& r@[i].leader == 0
            },
{
    let mut partitions: Vec<PartitionRecord> = Vec::new();
    let mut p: i32 = 0;
    while p < num_partitions
        invariant
            0 <= p,
            num_partitions > 0 ==> p <= num_partitions,
            num_partitions <= 0 ==> p == 0,
            partitions@.len() == p,
            forall|i: int|
                0 <= i < partitions@.len() ==> {
                    &&& (#[trigger] partitions@[i]).topic_id@ == name@
                    &&& partitions@[i].partition_id == i as u16
                    &&& partitions@[i].replicas@.len() == 0
                    &&& partitions@[i].leader == 0
                },
        decreases num_partitions - p,
    {
        partitions.push(
            PartitionRecord {
                topic_id: name.clone(),
                partition_id: p as u16,
                replicas: Vec::new(),
                leader: 0,
            },
        );
        p = p + 1;
    }
    partitions
}

/// The answer to a request to create a topic: its name, no error, an
/// empty message, and the partition count and replication factor asked for.
pub fn created_topic_response(t: &TopicRequest) -> (r: TopicResponse)
    ensures
        r.name@ == t.name@,
        r.error_code == ErrorCode::NoError,
        r.error_message@ == Seq::<char>::empty(),
        r.num_partitions == t.num_partitions,
        r.replication_factor == t.replication_factor,
{
    TopicResponse {
        name: t.name.clone(),
        error_code: ErrorCode::NoError,
        error_message: String::new(),
        num_partitions: t.num_partitions,
        replication_factor: t.replication_factor,
    }
}

/// How a partition of a created topic is set up: under `path`, led by the
/// record's leader as broker, with the default sizes and no replicas.
pub fn partition_config_for(path: &String, topic: &TopicRecord, p: &PartitionRecord) -> (r: PartitionConfig)
    ensures
        r.base_dir@ == path@,
        r.partition_id == p.partition_id,
        r.broker_id == p.leader as u16,
        r.topic_id@ == topic.name@,
        r.segment_bytes == 1048576,
        r.channel_size == 65536,
        r.replicas@.len() == 0,
{
    PartitionConfig::new(p.partition_id, p.leader as u16, path.clone(), topic.name.clone())
}

/// What a topic-creation request makes the controller do: the records of
/// each requested topic and its partitions, to be appended to the metadata
/// log and taken into the image, and the answer for each topic, in the
/// order requested.
pub struct CreateTopicsPlan {
    pub topics: Vec<(TopicRecord, Vec<PartitionRecord>)>,
    pub responses: Vec<TopicResponse>,
}

/// `entry` and `resp` are what the request for topic `t` plans: its topic
/// record, its partitions numbered from 0 up to the requested count (none
/// for a count that is not positive) with no replicas and broker 0 as
/// leader, and an answer without error that repeats the request.
pub open spec fn planned_topic(t: TopicRequest, entry: (TopicRecord, Vec<PartitionRecord>), resp: TopicResponse) -> bool {
    let (topic, parts) = entry;
    &&& topic.name@ == t.name@
    &&& parts@.len() == if t.num_partitions > 0 {
        t.num_partitions as int
    } else {
        0
    }
    &&& forall|j: int|
        0 <= j < parts@.len() ==> {
            &&& (#[trigger] parts@[j]).topic_id@ == t.name@
            &&& parts@[j].partition_id == j as u16
            &&& parts@[j].replicas@.len() == 0
            &&& parts@[j].leader == 0
        }
    &&& resp.name@ == t.name@
    &&& resp.error_code == ErrorCode::NoError
    &&& resp.error_message@ == Seq::<char>::empty()
    &&& resp.num_partitions == t.num_partitions
    &&& resp.replication_factor == t.replication_factor
}

/// Plans a topic-creation request, topic by topic in the order requested.
pub fn plan_create_topics(req: &CreateTopicRequest) -> (r: CreateTopicsPlan)
    ensures
        r.topics@.len() == req.topics@.len(),
        r.responses@.len() == req.topics@.len(),
        forall|i: int|
            0 <= i < req.topics@.len() ==> planned_topic(
                req.topics@[i],
                #[trigger] r.topics@[i],
                r.responses@[i],
            ),
{
    let mut topics: Vec<(TopicRecord, Vec<PartitionRecord>)> = Vec::new();
    let mut responses: Vec<TopicResponse> = Vec::new();
    let n = req.topics.len();
    let mut i: usize = 0;
    while i < n
        invariant
            n == req.topics@.len(),
            i <= n,
            topics@.len() == i,
            responses@.len() == i,
            forall|k: int|
                0 <= k < i ==> planned_topic(req.topics@[k], #[trigger] topics@[k], responses@[k]),
        decreases n - i,
    {
        let t = &req.topics[i];
        let partitions = topic_partitions(&t.name, t.num_partitions);
        let ghost old_topics = topics@;
        let ghost old_responses = responses@;
        topics.push((TopicRecord { name: t.name.clone() }, partitions));
        responses.push(created_topic_response(t));
        assert forall|k: int| 0 <= k < i + 1 implies planned_topic(
            req.topics@[k],
            #[trigger] topics@[k],
            responses@[k],
        ) by {
            if k < i {
                assert(topics@[k] == old_topics[k]);
                assert(responses@[k] == old_responses[k]);
            }
        }
        i = i + 1;
    }
    CreateTopicsPlan { topics, responses }
}

/// The partitions that a created topic adds to the controller's image, each
/// named by topic and partition and set up as `partition_config_for` says.
pub fn topic_partition_configs(path: &String, topic: &TopicRecord, partitions: &Vec<PartitionRecord>) -> (r: Vec<(TopicPartition, PartitionConfig)>)
    ensures
        r@.len() == partitions@.len(),
        forall|i: int|
            0 <= i < partitions@.len() ==> {
                let (key, cfg) = #[trigger] r@[i];
                let p = partitions@[i];
                &&& key.topic_id@ == topic.name@
                &&& key.partition_id == p.partition_id
                &&& cfg.base_dir@ == path@
                &&& cfg.partition_id == p.partition_id
                &&& cfg.broker_id == p.leader as u16
                &&& cfg.topic_id@ == topic.name@
                &&& cfg.segment_bytes == 1048576
                &&& cfg.channel_size == 65536
                &&& cfg.replicas@.len() == 0
            },
{
    let mut out: Vec<(TopicPartition, PartitionConfig)> = Vec::new();
    let n = partitions.len();
    let mut i: usize = 0;
    while i < n
        invariant
            n == partitions@.len(),
            i <= n,
            out@.len() == i,
            forall|k: int|
                0 <= k < i ==> {
                    let (key, cfg) = #[trigger] out@[k];
                    let p = partitions@[k];
                    &&& key.topic_id@ == topic.name@
                    &&& key.partition_id == p.partition_id
                    &&& cfg.base_dir@ == path@
                    &&& cfg.partition_id == p.partition_id
                    &&& cfg.broker_id == p.leader as u16
                    &&& cfg.topic_id@ == topic.name@
                    &&& cfg.segment_bytes == 1048576
                    &&& cfg.channel_size == 65536
                    &&& cfg.replicas@.len() == 0
                },
        decreases n - i,
    {
        let p = &partitions[i];
        let key = TopicPartition { topic_id: topic.name.clone(), partition_id: p.partition_id };
        out.push((key, partition_config_for(path, topic, p)));
        i = i + 1;
    }
    out
}

} // verus!
