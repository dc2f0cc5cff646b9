//! The controller's image of the cluster: the partitions it knows, each
//! named by topic and partition, with how it is set up.

use vstd::prelude::*;
use crate::broker::metadata::{PartitionRecord, TopicRecord, partition_config_for};
use crate::partition::config::PartitionConfig;
use crate::topic::TopicPartition;

verus! {

/// How a partition of the image is set up, as plain values.
pub struct PartitionSetup {
    pub base_dir: Seq<char>,
    pub broker_id: u16,
    pub segment_bytes: usize,
    pub channel_size: usize,
}

/// A partition's name as plain values: topic and partition.
pub open spec fn key_of(k: TopicPartition) -> (Seq<char>, u16) {
    (k.topic_id@, k.partition_id)
}

pub open spec fn setup_of(c: PartitionConfig) -> PartitionSetup {
    PartitionSetup {
        base_dir: c.base_dir@,
        broker_id: c.broker_id,
        segment_bytes: c.segment_bytes,
        channel_size: c.channel_size,
    }
}

/// The partitions of a list, by name; a later entry for a name wins.
pub open spec fn image_view(v: Seq<(TopicPartition, PartitionConfig)>) -> Map<
    (Seq<char>, u16),
    PartitionSetup,
>
    decreases v.len(),
{
    if v.len() == 0 {
        Map::empty()
    } else {
        image_view(v.drop_last()).insert(key_of(v.last().0), setup_of(v.last().1))
    }
}

/// No name occurs twice in the list.
pub open spec fn names_distinct(v: Seq<(TopicPartition, PartitionConfig)>) -> bool {
    forall|i: int, j: int| 0 <= i < j < v.len() ==> key_of(v[i].0) != key_of(v[j].0)
}

/// The image after partitions `ps[..n]` of topic `name` are created under
/// `path`, one after another: each is set up under `path`, led by its
/// record's leader, with the default sizes.
pub open spec fn created(
    m: Map<(Seq<char>, u16), PartitionSetup>,
    path: Seq<char>,
    name: Seq<char>,
    ps: Seq<PartitionRecord>,
    n: int,
) -> Map<(Seq<char>, u16), PartitionSetup>
    decreases n,
{
    if n <= 0 {
        m
    } else {
        created(m, path, name, ps, n - 1).insert(
            (name, ps[n - 1].partition_id),
            PartitionSetup {
                base_dir: path,
                broker_id: ps[n - 1].leader as u16,
                segment_bytes: 1048576,
                channel_size: 65536,
            },
        )
    }
}

proof fn lemma_image_view_update(v: Seq<(TopicPartition, PartitionConfig)>, i: int, e: (TopicPartition, PartitionConfig))
    requires
        names_distinct(v),
        0 <= i < v.len(),
        key_of(e.0) == key_of(v[i].0),
    ensures
        image_view(v.update(i, e)) == image_view(v).insert(key_of(e.0), setup_of(e.1)),
        names_distinct(v.update(i, e)),
    decreases v.len(),
{
    let u = v.update(i, e);
    if i == v.len() - 1 {
        assert(u.drop_last() =~= v.drop_last());
        assert(image_view(u) =~= image_view(v).insert(key_of(e.0), setup_of(e.1)));
    } else {
        let front = v.drop_last();
        assert(u.drop_last() =~= front.update(i, e));
        assert forall|a: int, b: int| 0 <= a < b < front.len() implies key_of(front[a].0) != key_of(
            front[b].0,
        ) by {
            assert(front[a] == v[a] && front[b] == v[b]);
        }
        lemma_image_view_update(front, i, e);
        assert(key_of(v.last().0) != key_of(e.0)) by {
            assert(v.last() == v[v.len() - 1]);
        }
        assert(image_view(u) =~= image_view(v).insert(key_of(e.0), setup_of(e.1)));
    }
    assert forall|a: int, b: int| 0 <= a < b < u.len() implies key_of(u[a].0) != key_of(u[b].0) by {
        assert(v[a] == if a == i { v[i] } else { u[a] } || a == i);
    }
}

/// The position of the partition named `key`, if the list holds it.
fn position_of(v: &Vec<(TopicPartition, PartitionConfig)>, key: &TopicPartition) -> (r: Option<usize>)
    ensures
        r matches Some(i) ==> i < v@.len() && key_of(v@[i as int].0) == key_of(*key),
        r is None ==> forall|i: int| 0 <= i < v@.len() ==> key_of(#[trigger] v@[i].0) != key_of(*key),
{
    let n = v.len();
    let mut i: usize = 0;
    while i < n
        invariant
            n == v@.len(),
            i <= n,
            forall|j: int| 0 <= j < i ==> key_of(#[trigger] v@[j].0) != key_of(*key),
        decreases n - i,
    {
        if v[i].0.partition_id == key.partition_id && v[i].0.topic_id == key.topic_id {
            return Some(i);
        }
        i = i + 1;
    }
    None
}

pub struct MetadataImage {
    pub partitions: Vec<(TopicPartition, PartitionConfig)>,
}

impl MetadataImage {
    /// No partition is listed twice.
    pub open spec fn wf(self) -> bool {
        names_distinct(self.partitions@)
    }

    /// The image's partitions by name.
    pub open spec fn view_map(self) -> Map<(Seq<char>, u16), PartitionSetup> {
        image_view(self.partitions@)
    }

    /// An image without partitions.
    pub fn empty() -> (r: Self)
        ensures
            r.wf(),
            r.view_map() == Map::<(Seq<char>, u16), PartitionSetup>::empty(),
    {
        MetadataImage { partitions: Vec::new() }
    }

    /// The image with the partitions of a created topic: each partition
    /// record, in order, sets up its partition under `path`, replacing what
    /// the image held under that name.
    pub fn create_topic(self, path: &String, topic: &TopicRecord, partition_records: &[PartitionRecord]) -> (r: Self)
        requires
            self.wf(),
        ensures
            r.wf(),
            r.view_map() == created(
                self.view_map(),
                path@,
                topic.name@,
                partition_records@,
                partition_records@.len() as int,
            ),
    {
        let ghost m0 = self.view_map();
        let mut partitions = self.partitions;
        let n = partition_records.len();
        let mut k: usize = 0;
        while k < n
            invariant
                n == partition_records@.len(),
                k <= n,
                names_distinct(partitions@),
                image_view(partitions@) == created(
                    m0,
                    path@,
                    topic.name@,
                    partition_records@,
                    k as int,
                ),
            decreases n - k,
        {
            let p = &partition_records[k];
            let key = TopicPartition { topic_id: topic.name.clone(), partition_id: p.partition_id };
            let config = partition_config_for(path, topic, p);
            let ghost before = partitions@;
            match position_of(&partitions, &key) {
                Some(i) => {
                    proof {
                        lemma_image_view_update(before, i as int, (key, config));
                    }
                    partitions.set(i, (key, config));
                },
                None => {
                    partitions.push((key, config));
                    assert(partitions@.drop_last() =~= before);
                    assert forall|a: int, b: int| 0 <= a < b < partitions@.len() implies key_of(
                        partitions@[a].0,
                    ) != key_of(partitions@[b].0) by {
                        if b < before.len() {
                            assert(partitions@[a] == before[a] && partitions@[b] == before[b]);
                        } else {
                            assert(partitions@[a] == before[a]);
                        }
                    }
                },
            }
            k = k + 1;
        }
        MetadataImage { partitions }
    }
}

} // verus!
