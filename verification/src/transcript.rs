//! The view of the whole conversation.
use crate::message::{MemoryItem, MessageView, item_views};
use vstd::prelude::*;

verus! {

/// The messages that compaction did not make.
pub open spec fn originals(items: Seq<MessageView>) -> Seq<MessageView>
    decreases items.len(),
{
    if items.len() == 0 {
        Seq::empty()
    } else if items.last().compacted {
        originals(items.drop_last())
    } else {
        originals(items.drop_last()).push(items.last())
    }
}

pub open spec fn archived_views(s: Seq<(MemoryItem, bool)>) -> Seq<MessageView> {
    Seq::new(s.len(), |i: int| s[i].0@)
}

/// The items that are shown. Where the whole history is kept, with a mark on what compaction
/// archived, that is the history without what compaction made; else it is the session as it
/// is.
pub fn transcript_items(full: Option<&Vec<(MemoryItem, bool)>>, live: &Vec<MemoryItem>) -> (r: Vec<
    MemoryItem,
>)
    ensures
        item_views(r@) == (match full {
            Some(f) => originals(archived_views(f@)),
            None => item_views(live@),
        }),
{
    let mut r: Vec<MemoryItem> = Vec::new();
    assert(item_views(r@) =~= Seq::empty());
    match full {
        Some(f) => {
            let ghost views = archived_views(f@);
            let mut i: usize = 0;
            assert(views.take(0) =~= Seq::empty());
            while i < f.len()
                invariant
                    i <= f@.len(),
                    views == archived_views(f@),
                    item_views(r@) == originals(views.take(i as int)),
                decreases f@.len() - i,
            {
                let m = f[i].0.message();
                let ghost r0 = item_views(r@);
                proof {
                    let t = views.take(i + 1);
                    assert(t.drop_last() =~= views.take(i as int));
                    assert(t.last() == m@);
                }
                if !m.compacted {
                    r.push(MemoryItem::Message(m.copied()));
                    assert(item_views(r@) =~= r0.push(m@));
                }
                i += 1;
            }
            assert(views.take(i as int) =~= views);
        },
        None => {
            let ghost want = item_views(live@);
            let mut i: usize = 0;
            while i < live.len()
                invariant
                    i <= live@.len(),
                    want == item_views(live@),
                    item_views(r@) =~= want.take(i as int),
                decreases live@.len() - i,
            {
                let m = live[i].message();
                let ghost r0 = item_views(r@);
                r.push(MemoryItem::Message(m.copied()));
                assert(item_views(r@) =~= r0.push(m@));
                i += 1;
            }
            assert(item_views(r@) =~= want);
        },
    }
    r
}

/// Where the whole history is kept, everything is shown but what compaction made.
pub proof fn transcripts_show_originals(items: Seq<MessageView>)
    ensures
        forall|m: MessageView| #[trigger]
            originals(items).contains(m) <==> items.contains(m) && !m.compacted,
    decreases items.len(),
{
    if items.len() == 0 {
        assert(originals(items) =~= Seq::empty());
    } else {
        let before = items.drop_last();
        transcripts_show_originals(before);
        assert forall|m: MessageView| #[trigger] originals(items).contains(m) implies items.contains(
            m,
        ) && !m.compacted by {
            let i = choose|i: int| 0 <= i < originals(items).len() && originals(items)[i] == m;
            if i < originals(before).len() {
                assert(originals(before)[i] == m);
                assert(originals(before).contains(m));
                let k = choose|k: int| 0 <= k < before.len() && before[k] == m;
                assert(items[k] == m);
            } else {
                assert(items[items.len() - 1] == m);
            }
        }
        assert forall|m: MessageView| items.contains(m) && !m.compacted implies #[trigger] originals(
            items,
        ).contains(m) by {
            let k = choose|k: int| 0 <= k < items.len() && items[k] == m;
            if k < before.len() {
                assert(before[k] == m);
                assert(originals(before).contains(m));
                let i = choose|i: int|
                    0 <= i < originals(before).len() && originals(before)[i] == m;
                assert(originals(items)[i] == m);
            } else {
                assert(originals(items).last() == m);
            }
        }
    }
}

/// The transcript goes through the history in order: one more message is one more at the end,
/// whole, unless compaction made it.
pub proof fn transcripts_keep_the_order(items: Seq<MessageView>, m: MessageView)
    ensures
        originals(items.push(m)) == if m.compacted {
            originals(items)
        } else {
            originals(items).push(m)
        },
        originals(Seq::empty()).len() == 0,
{
    assert(items.push(m).drop_last() =~= items);
}

/// The transcript shows the whole history, but for what compaction made, where it is kept, and
/// else the session as it is.
pub proof fn transcripts_show_the_history(
    history: Vec<(MemoryItem, bool)>,
    live: Vec<MemoryItem>,
    kept: Vec<MemoryItem>,
    unkept: Vec<MemoryItem>,
    i: int,
)
    requires
        call_ensures(transcript_items, (Some(&history), &live), kept),
        call_ensures(
            transcript_items,
            (None::<&Vec<(MemoryItem, bool)>>, &live),
            unkept,
        ),
    ensures
        0 <= i < history@.len() && !history@[i].0@.compacted ==> item_views(kept@).contains(
            history@[i].0@,
        ),
        item_views(unkept@) == item_views(live@),
{
    let items = archived_views(history@);
    transcripts_show_originals(items);
    if 0 <= i < history@.len() {
        assert(items[i] == history@[i].0@);
        assert(items.contains(items[i]));
    }
}

} // verus!
