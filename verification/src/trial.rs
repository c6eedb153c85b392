//! The trial engine: one complete play of the game.
//!
//! A trial places the prize, lets the contestant pick, has the host
//! open doors that hide neither the prize nor the pick, and evaluates
//! the stay and switch strategies on the same play.  The two outcomes
//! are proved mutually exclusive, and under a valid configuration the
//! door draws are proved to never run out of candidates.

use crate::config::Config;
use crate::rng::Gna;
use crate::selector::in_door_range;
use crate::selector::select;
use vstd::prelude::*;

verus! {

/// One game: a random source and the number of doors.
pub struct Jeu {
    gna: Gna,
    portes: u32,
}

impl Jeu {
    /// The number of doors of the game, at least 3.
    pub closed spec fn spec_portes(&self) -> u32 {
        self.portes
    }

    /// A fresh game over `portes` doors with its own random source.
    pub fn new(portes: u32) -> (jeu: Jeu)
        requires
            portes >= 3,
        ensures
            jeu.spec_portes() == portes,
    {
        Jeu { gna: Gna::new(), portes }
    }

    /// Draws a door of the game, excluding up to two doors: the
    /// specialized remapping shortcuts for the empty, one-element and
    /// two-element exclusion sets.
    pub fn choix_exclu(&mut self, a: Option<u32>, b: Option<u32>) -> (r: u32)
        requires
            old(self).spec_portes() >= 3,
            a is Some ==> 1 <= a->Some_0 <= old(self).spec_portes(),
            b is Some ==> 1 <= b->Some_0 <= old(self).spec_portes(),
            a is Some && b is Some ==> a->Some_0 != b->Some_0,
        ensures
            final (self).spec_portes() == old(self).spec_portes(),
            1 <= r <= old(self).spec_portes(),
            a is Some ==> r != a->Some_0,
            b is Some ==> r != b->Some_0,
    {
        let portes = self.portes;
        match (a, b) {
            (None, None) => self.gna.choix(portes),
            (Some(x), None) => self.gna.choix_autre(portes, x),
            (None, Some(y)) => self.gna.choix_autre(portes, y),
            (Some(x), Some(y)) => self.gna.choix_autre_autre(portes, x, y),
        }
    }

    /// Plays one classical round, the host opening a single door.
    /// Returns whether the contestant wins by staying and whether the
    /// contestant wins by switching; never both, and with 3 doors the
    /// switch is forced onto the one remaining door, so exactly one
    /// strategy wins every round.
    pub fn tour(&mut self) -> (r: (bool, bool))
        requires
            old(self).spec_portes() >= 3,
        ensures
            final (self).spec_portes() == old(self).spec_portes(),
            !(r.0 && r.1),
            old(self).spec_portes() == 3 ==> (r.0 || r.1),
    {
        let voiture = self.choix_exclu(None, None);
        let joueur = self.choix_exclu(None, None);

        let presentateur = if joueur == voiture {
            // the contestant picked the prize door
            self.choix_exclu(Some(voiture), None)
        } else {
            // the contestant picked a decoy door
            self.choix_exclu(Some(voiture), Some(joueur))
        };

        // the contestant keeps the original door
        let sans_changement = joueur == voiture;

        // the contestant switches
        let second = self.choix_exclu(Some(presentateur), Some(joueur));
        let avec_changement = second == voiture;

        (sans_changement, avec_changement)
    }
}

/// Plays one generalized round: the host opens `config.opened` doors,
/// each hiding neither the prize nor the contestant's pick.  Returns
/// whether staying wins and whether switching wins; never both.  When
/// the host opens all doors but two — the classical game among them —
/// the switch is forced onto the one remaining door, so exactly one
/// strategy wins every round.  Under the configuration invariant every
/// draw is proved to keep at least one candidate, so the selector's
/// exhaustion error is unreachable.
pub fn run_trial(gna: &mut Gna, config: &Config) -> (outcome: (bool, bool))
    requires
        config.valid(),
    ensures
        !(outcome.0 && outcome.1),
        config.doors == config.opened + 2 ==> (outcome.0 || outcome.1),
{
    let doors = config.doors;
    let opened = config.opened;
    let voiture = gna.choix(doors);
    let joueur = gna.choix(doors);

    // the exclusion list of the host's draws: the contestant's pick,
    // the prize door when it differs, then every door already opened
    let mut excl: Vec<u32> = Vec::new();
    excl.push(joueur);
    if voiture != joueur {
        excl.push(voiture);
    }
    let base: usize = excl.len();

    let mut i: u32 = 0;
    while i < opened
        invariant
            config.valid(),
            doors == config.doors,
            opened == config.opened,
            1 <= voiture <= doors,
            1 <= joueur <= doors,
            base <= 2,
            excl@.len() == base + i,
            i <= opened,
            excl@.no_duplicates(),
            in_door_range(excl@, doors),
            excl@[0] == joueur,
            voiture != joueur ==> excl@[1] == voiture,
            voiture == joueur ==> base == 1,
            voiture != joueur ==> base == 2,
        decreases opened - i,
    {
        let d = match select(gna, doors, &excl) {
            Ok(d) => d,
            Err(_) => vstd::pervasive::unreached(),
        };
        proof {
            assert forall|p: int, q: int|
                0 <= p < q < excl@.push(d).len() implies excl@.push(d)[p] != excl@.push(d)[q] by {
                if q < excl@.len() {
                    assert(excl@.push(d)[p] == excl@[p] && excl@.push(d)[q] == excl@[q]);
                } else {
                    assert(excl@.push(d)[q] == d);
                    assert(excl@.push(d)[p] == excl@[p]);
                    assert(!excl@.contains(d));
                }
            }
        }
        excl.push(d);
        i += 1;
    }

    // the contestant keeps the original door
    let sans_changement = joueur == voiture;

    // the switch draw excludes the opened doors and the original pick,
    // but never the prize door itself
    let ghost pre = excl@;
    if voiture != joueur {
        excl.remove(1);
    }
    let ghost switch_excl = excl@;
    proof {
        if voiture != joueur {
            assert forall|k: int|
                0 <= k < switch_excl.len() implies #[trigger] switch_excl[k] != voiture by {
                if k >= 1 {
                    assert(switch_excl[k] == pre[k + 1]);
                }
            }
        }
    }
    let second = match select(gna, doors, &excl) {
        Ok(d) => d,
        Err(_) => vstd::pervasive::unreached(),
    };
    proof {
        assert(switch_excl[0] == joueur);
        assert(switch_excl.contains(joueur));
        if doors == opened + 2 && joueur != voiture && second != voiture {
            // the switch exclusions, the draw itself and the prize door
            // would be doors + 1 distinct doors of the game
            let s2 = switch_excl.push(second).push(voiture);
            assert forall|p: int, q: int| 0 <= p < q < s2.len() implies s2[p] != s2[q] by {
                if q == s2.len() - 1 {
                    assert(s2[q] == voiture);
                    if p == s2.len() - 2 {
                        assert(s2[p] == second);
                    } else {
                        assert(s2[p] == switch_excl[p]);
                    }
                } else if q == s2.len() - 2 {
                    assert(s2[q] == second);
                    assert(s2[p] == switch_excl[p]);
                    assert(!switch_excl.contains(second));
                } else {
                    assert(s2[p] == switch_excl[p] && s2[q] == switch_excl[q]);
                }
            }
            assert(s2.no_duplicates());
            assert forall|k: int| 0 <= k < s2.len() implies 1 <= #[trigger] s2[k] <= doors by {
                if k < switch_excl.len() {
                    assert(s2[k] == switch_excl[k]);
                } else if k == s2.len() - 2 {
                    assert(s2[k] == second);
                } else {
                    assert(s2[k] == voiture);
                }
            }
            crate::selector::lemma_distinct_doors_bounded(s2, doors);
            assert(false);
        }
    }
    let avec_changement = second == voiture;

    (sans_changement, avec_changement)
}

} // verus!
