use vstd::prelude::*;
use crossbeam::queue::SegQueue;
use crate::device::DeviceControl;

verus! {

#[verifier::external_type_specification]
#[verifier::external_body]
#[verifier::reject_recursive_types(T)]
pub struct ExSegQueue<T>(SegQueue<T>);

/// One command on the bus: a device id and the mode asked of it.
pub type Command = (u64, DeviceControl);

/// What a queue of commands holds, head first.
pub uninterp spec fn queued(q: SegQueue<Command>) -> Seq<Command>;

/// Relies on crossbeam's `SegQueue::new`: the queue starts empty.
#[verifier::external_body]
fn queue_new() -> (q: SegQueue<Command>)
    ensures
        queued(q) == Seq::<Command>::empty(),
{
    SegQueue::new()
}

/// Relies on crossbeam's `SegQueue::push_mut`: the value goes to the tail.
#[verifier::external_body]
fn queue_push(q: &mut SegQueue<Command>, c: Command)
    ensures
        queued(*final(q)) == queued(*old(q)).push(c),
{
    q.push_mut(c)
}

/// Relies on crossbeam's `SegQueue::pop_mut`: the head leaves, or `None`
/// when the queue is empty.
#[verifier::external_body]
fn queue_pop(q: &mut SegQueue<Command>) -> (r: Option<Command>)
    ensures
        queued(*old(q)).len() == 0 ==> r is None && queued(*final(q)) == queued(*old(q)),
        queued(*old(q)).len() > 0 ==> r == Some(queued(*old(q))[0]) && queued(*final(q))
            == queued(*old(q)).drop_first(),
{
    q.pop_mut()
}

/// Relies on crossbeam's `SegQueue::len`: the number of queued values.
#[verifier::external_body]
fn queue_len(q: &SegQueue<Command>) -> (r: usize)
    ensures
        r == queued(*q).len(),
{
    q.len()
}

/// The commands of one device, in the order they stand in `s`.
pub open spec fn commands_for(s: Seq<Command>, d: u64) -> Seq<DeviceControl>
    decreases s.len(),
{
    if s.len() == 0 {
        Seq::empty()
    } else if s.last().0 == d {
        commands_for(s.drop_last(), d).push(s.last().1)
    } else {
        commands_for(s.drop_last(), d)
    }
}

/// FIFO queue of device commands, from the supervisor to the capture engine.
pub struct DeviceControlBus {
    queue: SegQueue<Command>,
}

impl DeviceControlBus {
    /// Commands waiting on the bus, oldest first.
    pub closed spec fn view(&self) -> Seq<Command> {
        queued(self.queue)
    }

    pub fn new() -> (r: DeviceControlBus)
        ensures
            r.view() == Seq::<Command>::empty(),
    {
        DeviceControlBus { queue: queue_new() }
    }

    /// Enqueues a command; never blocks or fails.
    pub fn publish(&mut self, device: u64, control: DeviceControl)
        ensures
            final(self).view() == old(self).view().push((device, control)),
    {
        queue_push(&mut self.queue, (device, control));
    }

    /// Takes the oldest command, or `None` when the bus is empty.
    pub fn drain_next(&mut self) -> (r: Option<Command>)
        ensures
            old(self).view().len() == 0 ==> r is None && final(self).view() == old(self).view(),
            old(self).view().len() > 0 ==> r == Some(old(self).view()[0]) && final(self).view()
                == old(self).view().drop_first(),
    {
        queue_pop(&mut self.queue)
    }

    /// Number of commands waiting.
    pub fn len(&self) -> (r: usize)
        ensures
            r == self.view().len(),
    {
        queue_len(&self.queue)
    }

    pub fn is_empty(&self) -> (r: bool)
        ensures
            r == (self.view().len() == 0),
    {
        queue_len(&self.queue) == 0
    }
}

proof fn lemma_commands_for_single(c: Command, e: u64)
    ensures
        commands_for(seq![c], e) == (if c.0 == e {
            seq![c.1]
        } else {
            Seq::<DeviceControl>::empty()
        }),
{
    let h = seq![c];
    assert(h.drop_last() =~= Seq::<Command>::empty());
    assert(h.last() == c);
    assert(commands_for(Seq::<Command>::empty(), e) == Seq::<DeviceControl>::empty());
    assert(Seq::<DeviceControl>::empty().push(c.1) =~= seq![c.1]);
}

/// The commands of one device in `s + t` are its commands in `s`, then those in `t`.
pub proof fn lemma_commands_for_concat(s: Seq<Command>, t: Seq<Command>, d: u64)
    ensures
        commands_for(s + t, d) == commands_for(s, d) + commands_for(t, d),
    decreases t.len(),
{
    if t.len() == 0 {
        assert(s + t =~= s);
        assert(commands_for(s, d) + commands_for(t, d) =~= commands_for(s, d));
    } else {
        lemma_commands_for_concat(s, t.drop_last(), d);
        assert((s + t).drop_last() =~= s + t.drop_last());
        assert((s + t).last() == t.last());
        if t.last().0 == d {
            assert(commands_for(s, d) + commands_for(t.drop_last(), d).push(t.last().1)
                =~= (commands_for(s, d) + commands_for(t.drop_last(), d)).push(t.last().1));
        }
    }
}

/// Per-device FIFO: when `c1` and later `c2` are published for device `d`
/// (with any commands of any devices in between), `d`'s commands on the bus
/// end with `c1`, those of `d` in between, then `c2`; and taking the head
/// removes it from the front of its own device's commands.
pub proof fn law_fifo_per_device(
    s: Seq<Command>,
    mid: Seq<Command>,
    d: u64,
    c1: DeviceControl,
    c2: DeviceControl,
)
    ensures
        commands_for(s.push((d, c1)).add(mid).push((d, c2)), d) == commands_for(s, d).push(
            c1,
        ).add(commands_for(mid, d)).push(c2),
        s.len() > 0 ==> commands_for(s, s[0].0) == seq![s[0].1].add(
            commands_for(s.drop_first(), s[0].0),
        ),
        s.len() > 0 ==> forall|e: u64| e != s[0].0 ==> commands_for(s, e) == commands_for(
            s.drop_first(),
            e,
        ),
{
    let t = s.push((d, c1)) + mid;
    assert(t.push((d, c2)).drop_last() =~= t);
    lemma_commands_for_concat(s.push((d, c1)), mid, d);
    assert(s.push((d, c1)).drop_last() =~= s);
    if s.len() > 0 {
        let h = seq![s[0]];
        assert(s =~= h + s.drop_first());
        assert(h.drop_last() =~= Seq::<Command>::empty());
        assert forall|e: u64| #[trigger] commands_for(h, e) == (if s[0].0 == e {
            seq![s[0].1]
        } else {
            Seq::<DeviceControl>::empty()
        }) by {
            lemma_commands_for_single(s[0], e);
        }
        assert forall|e: u64| #[trigger] commands_for(s, e) == commands_for(h, e) + commands_for(
            s.drop_first(),
            e,
        ) by {
            lemma_commands_for_concat(h, s.drop_first(), e);
        }
        assert(commands_for(h, s[0].0) =~= seq![s[0].1]);
        assert forall|e: u64| e != s[0].0 implies commands_for(s, e) == commands_for(
            s.drop_first(),
            e,
        ) by {
            assert(commands_for(s, e) == commands_for(h, e) + commands_for(s.drop_first(), e));
            assert(commands_for(h, e) =~= Seq::<DeviceControl>::empty());
            assert(commands_for(h, e) + commands_for(s.drop_first(), e) =~= commands_for(
                s.drop_first(),
                e,
            ));
        }
    }
}

} // verus!
