use ingest_core::data_record::{
    DataRecord, DataRecordError, EstimatedMemorySize, MatchKeyQuery,
};
use ingest_core::log_entry::{Gap, LogEntry, Lsn, MaybeRecord, NanosSinceEpoch, Record};

#[derive(Debug, Clone, PartialEq)]
struct Keys(Vec<u64>);

impl MatchKeyQuery<u64> for Keys {
    fn matches_key_query(&self, query: &u64) -> bool {
        self.0.contains(query)
    }
}

struct Body(Vec<u8>);

impl EstimatedMemorySize for Body {
    fn estimated_memory_size(&self) -> usize {
        self.0.len()
    }
}

fn record() -> DataRecord<u32, Keys> {
    DataRecord::new(NanosSinceEpoch(17), Keys(vec![3, 5]), Lsn(8), 21)
}

#[test]
fn a_record_has_the_parts_it_was_built_from() {
    let record = record();
    assert_eq!(record.created_at(), NanosSinceEpoch(17));
    assert_eq!(record.keys(), &Keys(vec![3, 5]));
    assert_eq!(record.seq(), Lsn(8));
    assert_eq!(record.inner(), &21);
    assert_eq!(record.clone().into_inner(), 21);
}

#[test]
fn mapping_keeps_the_metadata() {
    let mapped = record().map(|n| n.to_string());
    assert_eq!(mapped.inner(), "21");
    assert_eq!(mapped.seq(), Lsn(8));
    assert_eq!(mapped.created_at(), NanosSinceEpoch(17));
    assert_eq!(mapped.keys(), &Keys(vec![3, 5]));

    let mapped = record().try_map(|n| u8::try_from(n)).unwrap();
    assert_eq!(mapped.inner(), &21u8);
    assert_eq!(mapped.seq(), Lsn(8));

    let failed = record().try_map(|_| Err::<u8, &str>("no"));
    assert_eq!(failed.err(), Some("no"));
}

#[test]
fn the_payload_can_be_borrowed() {
    let mut record = record();
    let shared: &u32 = record.as_ref();
    assert_eq!(*shared, 21);
    *record.as_mut() += 1;
    assert_eq!(record.inner(), &22);
    assert_eq!(record.seq(), Lsn(8));
}

#[test]
fn keys_decide_whether_a_record_matches() {
    let record = record();
    assert!(record.matches_key_query(&5));
    assert!(!record.matches_key_query(&4));
}

#[test]
fn the_payload_decides_the_size() {
    let record = DataRecord::new(NanosSinceEpoch(0), (), Lsn(1), Body(vec![0; 12]));
    assert_eq!(record.estimated_memory_size(), 12);
}

fn converted(
    record: MaybeRecord<u32, Keys, Lsn>,
) -> Result<DataRecord<u32, Keys>, DataRecordError<Lsn>> {
    DataRecord::try_from(LogEntry {
        seq: Lsn(10),
        record,
    })
}

#[test]
fn only_data_becomes_a_record() {
    let record = converted(MaybeRecord::Data(Record {
        created_at: NanosSinceEpoch(4),
        body: 99,
        keys: Keys(vec![1]),
    }))
    .ok()
    .unwrap();
    assert_eq!(record.seq(), Lsn(10));
    assert_eq!(record.created_at(), NanosSinceEpoch(4));
    assert_eq!(record.keys(), &Keys(vec![1]));
    assert_eq!(record.inner(), &99);

    let to = Lsn(15);
    assert!(matches!(
        converted(MaybeRecord::TrimGap(Gap { to })),
        Err(DataRecordError::TrimGap {
            from: Lsn(10),
            to: Lsn(15)
        })
    ));
    assert!(matches!(
        converted(MaybeRecord::Filtered(Gap { to })),
        Err(DataRecordError::FilteredGap {
            from: Lsn(10),
            to: Lsn(15)
        })
    ));
    assert!(matches!(
        converted(MaybeRecord::DataLoss(Gap { to })),
        Err(DataRecordError::DataLossGap {
            from: Lsn(10),
            to: Lsn(15)
        })
    ));
}
