# pallet_voting

A voting pallet, verified with Verus. Root registers voters; a registered voter
creates a proposal and becomes its first member; members admit new members by a
quorum of more than half, add subjects and alternatives, and cast one ballot
each; root finishes proposals.

- `src/types.rs`: origins, proposals, events, errors, the configured bounds.
- `src/model.rs`: the pallet's state as a mathematical value, what each call
  does to it, and the invariant.
- `src/pallet.rs`: the executable pallet; each call is proved to do exactly
  what `model.rs` says and to keep the invariant.
- `src/keymap.rs`, `src/bounded.rs`: the storage maps and bounded lists.
- `src/preserve.rs`: each call keeps the invariant.
- `src/laws.rs`: what holds over all calls: failed calls change nothing, only
  root registers and finishes, a finished proposal takes no new subject or
  ballot, approvals count once, the first ballot is kept, proposal ids count up
  from 1 and never wrap, nothing stored is lost.
