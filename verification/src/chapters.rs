//! The chapter loader: from the reading order to the chapter list and the
//! chapter texts.

use crate::failure::{read_failure, read_failure_text};
use crate::model::{ChapterInfo, ChapterView, EpubError};
use vstd::prelude::*;

verus! {

/// A manifest item that the reading order refers to, with the outcome of
/// reading it as text.
#[derive(Debug)]
pub struct ManifestItem {
    /// Identifier of the item in the manifest.
    pub id: String,
    /// Path of the resource.
    pub href: String,
    /// MIME type of the resource.
    pub media_type: String,
    /// The text of the resource, or the reason why it could not be read.
    pub text: Result<String, String>,
}

/// Mathematical view of [`ManifestItem`].
pub struct ItemView {
    pub id: Seq<char>,
    pub href: Seq<char>,
    pub media_type: Seq<char>,
    pub text: Result<Seq<char>, Seq<char>>,
}

impl View for ManifestItem {
    type V = ItemView;

    open spec fn view(&self) -> ItemView {
        ItemView {
            id: self.id@,
            href: self.href@,
            media_type: self.media_type@,
            text: match self.text {
                Ok(body) => Ok(body@),
                Err(cause) => Err(cause@),
            },
        }
    }
}

impl DeepView for ManifestItem {
    type V = ItemView;

    open spec fn deep_view(&self) -> ItemView {
        self@
    }
}

/// What the manifest records of an item: its identifier, path and MIME type.
pub struct RecordView {
    pub id: Seq<char>,
    pub href: Seq<char>,
    pub media_type: Seq<char>,
}

/// The manifest record of an item.
pub open spec fn record_of(item: ItemView) -> RecordView {
    RecordView { id: item.id, href: item.href, media_type: item.media_type }
}

/// The manifest record of an entry of the reading order, if it names an item.
pub open spec fn slot_record(slot: Option<ItemView>) -> Option<RecordView> {
    match slot {
        Some(item) => Some(record_of(item)),
        None => None,
    }
}

/// The items that a reading order resolves to: its entries without those
/// that name no manifest item, in the same order.
pub open spec fn resolved(spine: Seq<Option<ItemView>>) -> Seq<ItemView> {
    spine.filter_map(|slot: Option<ItemView>| slot)
}

/// `k` is the position of the first item whose text could not be read.
pub open spec fn first_unreadable(items: Seq<ItemView>, k: int) -> bool {
    &&& 0 <= k < items.len()
    &&& items[k].text is Err
    &&& forall|j: int| 0 <= j < k ==> (#[trigger] items[j]).text is Ok
}

/// The text of every item could be read.
pub open spec fn all_readable(items: Seq<ItemView>) -> bool {
    forall|j: int| 0 <= j < items.len() ==> (#[trigger] items[j]).text is Ok
}

/// The chapter records of `items`: one per item, numbered by position.
pub open spec fn chapter_list(items: Seq<ItemView>) -> Seq<ChapterView> {
    Seq::new(
        items.len(),
        |i: int|
            ChapterView {
                index: i as nat,
                id: items[i].id,
                href: items[i].href,
                media_type: items[i].media_type,
            },
    )
}

/// The texts of `items`, one per item.
pub open spec fn content_list(items: Seq<ItemView>) -> Seq<Seq<char>> {
    Seq::new(items.len(), |i: int| items[i].text->Ok_0)
}

/// What loading the chapters of a reading order gives: the chapter list and
/// the texts, or the message for the first item that could not be read.
pub open spec fn chapters_outcome(spine: Seq<Option<ItemView>>) -> Result<
    (Seq<ChapterView>, Seq<Seq<char>>),
    Seq<char>,
> {
    let items = resolved(spine);
    if all_readable(items) {
        Ok((chapter_list(items), content_list(items)))
    } else {
        let k = choose|k: int| first_unreadable(items, k);
        Err(read_failure_text(items[k].id, items[k].text->Err_0))
    }
}

/// The records that a reading order names: its entries without those that
/// name no manifest item, in the same order.
pub open spec fn named_records(records: Seq<Option<RecordView>>) -> Seq<RecordView> {
    records.filter_map(|slot: Option<RecordView>| slot)
}

/// The chapter records for `records`: one per record, numbered by position.
pub open spec fn record_chapters(records: Seq<RecordView>) -> Seq<ChapterView> {
    Seq::new(
        records.len(),
        |i: int|
            ChapterView {
                index: i as nat,
                id: records[i].id,
                href: records[i].href,
                media_type: records[i].media_type,
            },
    )
}

/// The records of the items that a reading order resolves to are the records
/// that its entries name.
pub proof fn lemma_resolved_records(spine: Seq<Option<ItemView>>, records: Seq<Option<RecordView>>)
    requires
        spine.len() == records.len(),
        forall|i: int| 0 <= i < spine.len() ==> slot_record(#[trigger] spine[i]) == records[i],
    ensures
        resolved(spine).len() == named_records(records).len(),
        forall|j: int|
            0 <= j < resolved(spine).len() ==> record_of(#[trigger] resolved(spine)[j])
                == named_records(records)[j],
        chapter_list(resolved(spine)) == record_chapters(named_records(records)),
    decreases spine.len(),
{
    if spine.len() > 0 {
        lemma_resolved_records(spine.drop_last(), records.drop_last());
        assert(slot_record(spine.last()) == records.last());
    }
    assert(chapter_list(resolved(spine)) =~= record_chapters(named_records(records)));
}

/// A reading order that ends in an item whose text could not be read has an
/// unreadable item among those it resolves to.
pub proof fn lemma_unreadable_last_is_resolved(spine: Seq<Option<ItemView>>)
    requires
        spine.len() > 0,
        spine.last() is Some,
        spine.last()->0.text is Err,
    ensures
        !all_readable(resolved(spine)),
{
    let items = resolved(spine);
    assert(items.last() == spine.last()->0);
    assert(items[items.len() - 1].text is Err);
}

/// A reading order none of whose entries names an item resolves to no item.
pub proof fn lemma_unnamed_entries_resolve_to_nothing(spine: Seq<Option<ItemView>>)
    requires
        forall|i: int| 0 <= i < spine.len() ==> (#[trigger] spine[i]) is None,
    ensures
        resolved(spine) == Seq::<ItemView>::empty(),
    decreases spine.len(),
{
    if spine.len() > 0 {
        lemma_unnamed_entries_resolve_to_nothing(spine.drop_last());
        assert(spine.last() is None);
    }
    assert(resolved(spine) =~= Seq::<ItemView>::empty());
}

/// The resolved items of a reading order followed by another are the resolved
/// items of the first followed by those of the second.
pub proof fn lemma_resolved_concat(a: Seq<Option<ItemView>>, b: Seq<Option<ItemView>>)
    ensures
        resolved(a + b) == resolved(a) + resolved(b),
    decreases b.len(),
{
    if b.len() == 0 {
        assert(a + b =~= a);
        assert(resolved(a) + resolved(b) =~= resolved(a));
    } else {
        lemma_resolved_concat(a, b.drop_last());
        assert((a + b).drop_last() =~= a + b.drop_last());
        assert((a + b).last() == b.last());
        assert(resolved(a + b) =~= resolved(a) + resolved(b));
    }
}

/// Where some item could not be read, one of them is the first.
pub proof fn lemma_some_item_is_first_unreadable(items: Seq<ItemView>, j: int)
    requires
        0 <= j < items.len(),
        items[j].text is Err,
    ensures
        exists|k: int| first_unreadable(items, k),
    decreases j,
{
    if forall|i: int| 0 <= i < j ==> (#[trigger] items[i]).text is Ok {
        assert(first_unreadable(items, j));
    } else {
        let i = choose|i: int| 0 <= i < j && !((#[trigger] items[i]).text is Ok);
        lemma_some_item_is_first_unreadable(items, i);
    }
}

/// At most one position is that of the first unreadable item.
pub proof fn lemma_first_unreadable_unique(items: Seq<ItemView>, k: int, m: int)
    requires
        first_unreadable(items, k),
        first_unreadable(items, m),
    ensures
        k == m,
{
    if k < m {
        assert(items[k].text is Ok);
    }
    if m < k {
        assert(items[m].text is Ok);
    }
}

/// Loading is decided at the first item whose text could not be read: what
/// comes behind that item in the reading order does not change the outcome.
pub proof fn lemma_outcome_decided_at_first_failure(spine: Seq<Option<ItemView>>, at: int)
    requires
        0 <= at < spine.len(),
        spine[at] is Some,
        spine[at]->0.text is Err,
        all_readable(resolved(spine.subrange(0, at))),
    ensures
        chapters_outcome(spine) == chapters_outcome(spine.subrange(0, at + 1)),
        chapters_outcome(spine) == Err::<(Seq<ChapterView>, Seq<Seq<char>>), Seq<char>>(
            read_failure_text(spine[at]->0.id, spine[at]->0.text->Err_0),
        ),
{
    let before = spine.subrange(0, at);
    let upto = spine.subrange(0, at + 1);
    let behind = spine.subrange(at + 1, spine.len() as int);
    let kept = resolved(before);
    let k = kept.len() as int;
    assert(upto =~= before.push(spine[at]));
    assert(upto.drop_last() =~= before);
    assert(resolved(upto) =~= kept.push(spine[at]->0));
    assert(spine =~= upto + behind);
    lemma_resolved_concat(upto, behind);
    let short = resolved(upto);
    let all = resolved(spine);
    assert(short[k] == spine[at]->0);
    assert(all[k] == spine[at]->0);
    assert forall|j: int| 0 <= j < k implies (#[trigger] all[j]).text is Ok && (
    #[trigger] short[j]).text is Ok by {
        assert(all[j] == kept[j]);
        assert(short[j] == kept[j]);
    }
    assert(first_unreadable(all, k));
    assert(first_unreadable(short, k));
    lemma_first_unreadable_unique(all, k, choose|c: int| first_unreadable(all, c));
    lemma_first_unreadable_unique(short, k, choose|c: int| first_unreadable(short, c));
}

/// Loads the chapters of a reading order. Entries that resolve to no manifest
/// item are skipped. Each chapter is numbered by its position among the
/// chapters kept. Loading fails at the first item whose text could not be
/// read.
pub fn load_chapters(spine: &Vec<Option<ManifestItem>>) -> (outcome: Result<
    (Vec<ChapterInfo>, Vec<String>),
    EpubError,
>)
    ensures
        outcome is Ok <==> all_readable(resolved(spine.deep_view())),
        match outcome {
            Ok((chapters, contents)) => chapters_outcome(spine.deep_view()) == Ok::<
                (Seq<ChapterView>, Seq<Seq<char>>),
                Seq<char>,
            >((chapters.deep_view(), contents.deep_view())),
            Err(e) => chapters_outcome(spine.deep_view()) == Err::<
                (Seq<ChapterView>, Seq<Seq<char>>),
                Seq<char>,
            >(e@),
        },
{
    let ghost slots = spine.deep_view();
    let mut chapters: Vec<ChapterInfo> = Vec::new();
    let mut contents: Vec<String> = Vec::new();
    let mut at: usize = 0;
    assert(chapters.deep_view() =~= chapter_list(resolved(slots.subrange(0, 0))));
    assert(contents.deep_view() =~= content_list(resolved(slots.subrange(0, 0))));
    while at < spine.len()
        invariant
            at <= spine.len(),
            slots == spine.deep_view(),
            all_readable(resolved(slots.subrange(0, at as int))),
            chapters.deep_view() == chapter_list(resolved(slots.subrange(0, at as int))),
            contents.deep_view() == content_list(resolved(slots.subrange(0, at as int))),
        decreases spine.len() - at,
    {
        let ghost seen = slots.subrange(0, at as int);
        let ghost kept = resolved(seen);
        proof {
            assert(slots.subrange(0, at + 1) =~= seen.push(slots[at as int]));
            assert(seen.push(slots[at as int]).drop_last() =~= seen);
            assert(chapters.deep_view().len() == chapters.len());
            assert(chapter_list(kept).len() == kept.len());
        }
        match &spine[at] {
            Some(item) => {
                let ghost now = kept.push(item@);
                assert(resolved(slots.subrange(0, at + 1)) =~= now);
                match &item.text {
                    Ok(body) => {
                        let ghost shown = chapters.deep_view();
                        let ghost read = contents.deep_view();
                        chapters.push(
                            ChapterInfo {
                                index: chapters.len(),
                                id: item.id.clone(),
                                href: item.href.clone(),
                                media_type: item.media_type.clone(),
                            },
                        );
                        contents.push(body.clone());
                        proof {
                            assert(chapters.deep_view() =~= shown.push(chapter_list(now)[kept.len() as int]));
                            assert(chapters.deep_view() =~= chapter_list(now));
                            assert(contents.deep_view() =~= read.push(body@));
                            assert(contents.deep_view() =~= content_list(now));
                            assert forall|j: int| 0 <= j < now.len() implies (#[trigger] now[j]).text is Ok by {
                                if j < kept.len() {
                                    assert(now[j] == kept[j]);
                                }
                            }
                        }
                    },
                    Err(cause) => {
                        proof {
                            let rest = slots.subrange(at + 1, slots.len() as int);
                            assert(slots =~= slots.subrange(0, at + 1) + rest);
                            lemma_resolved_concat(slots.subrange(0, at + 1), rest);
                            let all = resolved(slots);
                            let k = kept.len() as int;
                            assert(all[k] == item@);
                            assert forall|j: int| 0 <= j < k implies (#[trigger] all[j]).text is Ok by {
                                assert(all[j] == kept[j]);
                            }
                            assert(first_unreadable(all, k));
                            let c = choose|c: int| first_unreadable(all, c);
                            lemma_first_unreadable_unique(all, k, c);
                        }
                        return Err(read_failure(item.id.as_str(), cause.as_str()));
                    },
                }
            },
            None => {
                assert(resolved(slots.subrange(0, at + 1)) =~= kept);
            },
        }
        at = at + 1;
    }
    assert(slots.subrange(0, at as int) =~= slots);
    Ok((chapters, contents))
}

} // verus!
