//! Enemy behaviour: the parts of it that stand on their own.

use vstd::prelude::*;
use crate::entities::{GRAPHIC, X, Y};
use crate::game::Game;

verus! {

impl Game {
    /// Puts BLOB's shot away: the shot's slot takes the blank graphic
    /// (`0xDF40`) below the room, and BLOB forgets it fired.
    pub fn reset_shot(&mut self)
        ensures
            final(self).entities[5].0@ == old(self).entities[5].0@.update(X as int, 0).update(Y as int, 0x0F).update(
                GRAPHIC as int,
                0x40,
            ).update(GRAPHIC + 1, 0xDF),
            final(self).entities[0].0@ == old(self).entities[0].0@.update(0x12, 0).update(0x15, 0).update(0x16, 0),
            forall|k: int| 1 <= k < 5 ==> #[trigger] final(self).entities[k] == old(self).entities[k],
            *final(self) == (Game { entities: final(self).entities, ..*old(self) }),
    {
        self.entities[5].0[X] = 0x00;
        self.entities[5].0[Y] = 0x0F;
        self.entities[5].0[GRAPHIC] = 0x40;
        self.entities[5].0[GRAPHIC + 1] = 0xDF;
        self.entities[0].0[0x12] = 0;
        self.entities[0].0[0x15] = 0;
        self.entities[0].0[0x16] = 0;
    }
}

} // verus!
