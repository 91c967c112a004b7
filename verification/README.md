# sona_calls

The call control of a messenger client: voice calls between two accounts and in groups, rings
that reach a device whose vault is locked, reconnects, and the audio path between the call
engine and the sound card.

- `src/` decides. Every step takes the session as it is, together with what the relay, the
  platform or the user just said, and returns the session as it becomes and the effects to
  perform, in order. Each contract says exactly which. What holds over several steps is stated
  in public proof functions, next to the steps they speak of:
  - `call/` holds the calls themselves: offers, claims, endings, groups, reconnects, capsules
    and the locked store. `call/handles.rs` proves that a system call never outlives what holds
    it: a call or ring of the session, a ring in the store, or the plan that one step handed to
    the next. Each step says that it keeps to that. `call/late_offer.rs` proves that a call whose
    end arrives before its offer never rings.
  - `audio/` and `aec/` hold the frame queues, the mixer's integer arithmetic, device
    selection, the far-end reference and the schedule of the delay search.
  - `bio.rs`, `android_media.rs` and `attr_heal.rs` hold the unlock prompt, the media queues of
    a phone, and what is set aside until its sender is known.
- `app/` performs: it locks the session, takes a step, and carries the effects out. Floating
  point signal processing and everything that touches a device, a file or the network is there.
- `tests/` runs the library on concrete values.
