//! What a device tells, and how its descriptor heap is given away.
use vstd::prelude::*;

use crate::text::{before, join, joined, until_char};

verus! {

/// Bytes that were given away on a descriptor heap.
#[derive(Clone, Copy, Debug, Default, Eq, Hash, PartialEq, Structural)]
pub struct DescriptorHeap {
    /// Amount of used bytes
    pub used: u64,
}

impl DescriptorHeap {
    /// A heap of which nothing is used.
    pub fn new() -> (heap: DescriptorHeap)
        ensures
            heap.used == 0,
    {
        DescriptorHeap { used: 0 }
    }

    /// Forgets all that was given away.
    pub fn reset(&mut self)
        ensures
            final(self).used == 0,
    {
        self.used = 0;
    }

    /// Gives away the next descriptor and returns its offset in bytes.
    pub fn next(&mut self, increment: u32) -> (offset: u64)
        requires
            old(self).used + increment <= u64::MAX,
        ensures
            offset == old(self).used,
            final(self).used == old(self).used + increment,
    {
        let offset: u64 = self.used;
        self.used = offset + increment as u64;
        offset
    }
}

/// The name of an adapter, which comes filled up with NULs.
pub fn adapter_name(description: &str) -> (name: String)
    ensures
        name@ == before(description@, '\0'),
{
    until_char(description, '\0')
}

/// A list of devices, each on a line of its own.
pub open spec fn device_list(devices: Seq<Seq<char>>) -> Seq<char>
    decreases devices.len(),
{
    if devices.len() == 0 {
        Seq::empty()
    } else {
        device_list(devices.drop_last()) + "\n- "@ + devices.last()
    }
}

/// Lists of devices are put behind each other, and each device stands on its own line.
pub proof fn lemma_device_list(a: Seq<Seq<char>>, b: Seq<Seq<char>>, device: Seq<char>)
    ensures
        device_list(a + b) == device_list(a) + device_list(b),
        device_list(seq![device]) == seq!['\n', '-', ' '] + device,
    decreases b.len(),
{
    reveal_strlit("\n- ");
    let one = seq![device];
    assert(one.drop_last() =~= Seq::empty());
    assert(device_list(one.drop_last()) =~= Seq::empty());
    assert(device_list(one) =~= seq!['\n', '-', ' '] + device);
    if b.len() == 0 {
        assert(a + b =~= a);
        assert(device_list(a) + device_list(b) =~= device_list(a));
    } else {
        assert((a + b).drop_last() =~= a + b.drop_last());
        lemma_device_list(a, b.drop_last(), device);
        assert(device_list(a + b) =~= device_list(a) + device_list(b));
    }
}

/// A list of devices, each on a line of its own.
pub fn get_device_list(devices: &Vec<String>) -> (text: String)
    ensures
        text@ == device_list(devices.deep_view()),
{
    let ghost all = devices.deep_view();
    let mut text = String::new();
    let mut i: usize = 0;
    assert(all.take(0) =~= Seq::<Seq<char>>::empty());
    while i < devices.len()
        invariant
            i <= devices@.len(),
            all == devices.deep_view(),
            text@ == device_list(all.take(i as int)),
        decreases devices@.len() - i,
    {
        assert(all.take(i + 1).drop_last() =~= all.take(i as int));
        assert(all.take(i + 1).last() == devices@[i as int]@);
        text.append("\n- ");
        text.append(devices[i].as_str());
        i += 1;
    }
    assert(all.take(i as int) =~= all);
    text
}

/// The messages of a device, one on each line.
pub fn device_messages(descriptions: &Vec<String>) -> (text: String)
    ensures
        text@ == joined(
            Seq::new(descriptions@.len(), |i: int| "DX "@ + descriptions@[i]@),
            "\n"@,
        ),
{
    let mut lines: Vec<String> = Vec::new();
    let mut i: usize = 0;
    while i < descriptions.len()
        invariant
            i <= descriptions@.len(),
            lines@.len() == i,
            forall|j: int| 0 <= j < i ==> (#[trigger] lines@[j])@ == "DX "@ + descriptions@[j]@,
        decreases descriptions@.len() - i,
    {
        let mut line = String::from_str("DX ");
        line.append(descriptions[i].as_str());
        lines.push(line);
        i += 1;
    }
    assert(lines.deep_view() =~= Seq::new(
        descriptions@.len(),
        |i: int| "DX "@ + descriptions@[i]@,
    ));
    join(&lines, "\n")
}

} // verus!
