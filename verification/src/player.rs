use crate::message::MotionDataContainer;
use crate::network_sync::NetworkSync;
use crate::text::str_eq;
use vstd::prelude::*;

verus! {

/// Animation state of an entity.
#[derive(Clone, Copy, Debug, PartialEq, Eq, Structural)]
pub enum PlayerState {
    Idle,
    Running,
    Jumping,
    Attack1,
    Attack2,
    Death,
}

/// Which character an entity is drawn and sized as.
#[derive(Clone, Copy, Debug, PartialEq, Eq, Structural)]
pub enum CharacterType {
    Witcher,
    Witch,
}

/// The replicated snapshot of one entity.
///
/// Coordinates and speeds are 32-bit floats carried as their IEEE-754 bit
/// patterns: the replication layer copies them and never does arithmetic on
/// them.
#[derive(Clone, Copy, Debug, PartialEq, Eq)]
pub struct DataWrapper {
    pub state: PlayerState,
    pub owner_id: i32,
    pub object_id: i32,
    pub character_type: CharacterType,
    pub position_data: (u32, u32),
    pub speed_data: (u32, u32),
    pub facing_right: bool,
}

impl DataWrapper {
    /// The snapshot with the fields of a motion sample written over it.
    pub open spec fn with_motion(self, m: MotionDataContainer) -> DataWrapper {
        DataWrapper {
            state: m.animation_state,
            position_data: (m.x, m.y),
            speed_data: (m.x_speed, m.y_speed),
            facing_right: m.facing_right,
            ..self
        }
    }

    /// The motion sample that carries this snapshot's position, speed,
    /// animation state and facing.
    pub open spec fn motion(self) -> MotionDataContainer {
        MotionDataContainer {
            x: self.position_data.0,
            y: self.position_data.1,
            x_speed: self.speed_data.0,
            y_speed: self.speed_data.1,
            animation_state: self.state,
            facing_right: self.facing_right,
        }
    }

    pub fn generate_motion_data(&self) -> (m: MotionDataContainer)
        ensures
            m == self.motion(),
    {
        MotionDataContainer::new(
            self.position_data.0,
            self.position_data.1,
            self.speed_data.0,
            self.speed_data.1,
            self.state,
            self.facing_right,
        )
    }

    /// Writes a motion sample over the snapshot; owner, id and character stay.
    pub fn apply_motion(&mut self, m: &MotionDataContainer)
        ensures
            *final(self) == old(self).with_motion(*m),
    {
        self.position_data = (m.x, m.y);
        self.speed_data = (m.x_speed, m.y_speed);
        self.state = m.animation_state;
        self.facing_right = m.facing_right;
    }
}

/// A live entity: its replicated snapshot and the animation counters the
/// simulation keeps beside it.
#[derive(Clone, Copy, Debug, PartialEq, Eq)]
pub struct Player {
    pub speed: (u32, u32),
    pub wrapper: DataWrapper,
    pub attack_frame: usize,
    pub speed_updated: bool,
    pub current_frame: usize,
    pub facing_right: bool,
    pub health: i32,
    pub is_dead: bool,
    pub death_frame: usize,
    pub animation_changed: bool,
}

impl Player {
    /// The live entity a snapshot starts as.
    pub open spec fn fresh(wrapper: DataWrapper) -> Player {
        Player {
            speed: wrapper.speed_data,
            wrapper,
            attack_frame: 0,
            speed_updated: false,
            current_frame: 0,
            facing_right: wrapper.facing_right,
            health: 100,
            is_dead: false,
            death_frame: 0,
            animation_changed: false,
        }
    }

    /// The entity after a motion sample from the network is applied.
    pub open spec fn moved(self, m: MotionDataContainer) -> Player {
        Player {
            wrapper: self.wrapper.with_motion(m),
            speed: (m.x_speed, m.y_speed),
            facing_right: m.facing_right,
            ..self
        }
    }

    pub fn construct_from_wrapper(wrapper: DataWrapper) -> (p: Player)
        ensures
            p == Player::fresh(wrapper),
    {
        Player {
            speed: wrapper.speed_data,
            wrapper,
            attack_frame: 0,
            speed_updated: false,
            current_frame: 0,
            facing_right: wrapper.facing_right,
            health: 100,
            is_dead: false,
            death_frame: 0,
            animation_changed: false,
        }
    }

    pub fn apply_motion(&mut self, m: &MotionDataContainer)
        ensures
            *final(self) == old(self).moved(*m),
    {
        self.wrapper.apply_motion(m);
        self.speed = (m.x_speed, m.y_speed);
        self.facing_right = m.facing_right;
    }
}

impl NetworkSync for Player {
    open spec fn owner(&self) -> i32 {
        self.wrapper.owner_id
    }

    open spec fn object_id(&self) -> i32 {
        self.wrapper.object_id
    }

    fn get_owner(&self) -> (id: i32) {
        self.wrapper.owner_id
    }

    fn set_owner(&mut self, owner_id: i32)
        ensures
            *final(self) == (Player {
                wrapper: DataWrapper { owner_id, ..old(self).wrapper },
                ..*old(self)
            }),
    {
        self.wrapper.owner_id = owner_id;
    }

    fn get_object_id(&self) -> (id: i32) {
        self.wrapper.object_id
    }

    fn set_object_id(&mut self, object_id: i32)
        ensures
            *final(self) == (Player {
                wrapper: DataWrapper { object_id, ..old(self).wrapper },
                ..*old(self)
            }),
    {
        self.wrapper.object_id = object_id;
    }
}

impl CharacterType {
    /// The name of the character.
    pub open spec fn name_of(self) -> Seq<char> {
        match self {
            CharacterType::Witcher => "Witcher"@,
            CharacterType::Witch => "Witch"@,
        }
    }

    /// The name of the character.
    pub fn name(&self) -> (name: &'static str)
        ensures
            name@ == self.name_of(),
    {
        match self {
            CharacterType::Witcher => "Witcher",
            CharacterType::Witch => "Witch",
        }
    }

    /// The character of that name, if there is one.
    pub fn from_name(name: &str) -> (character: Option<CharacterType>)
        ensures
            character == if name@ == "Witcher"@ {
                Some(CharacterType::Witcher)
            } else if name@ == "Witch"@ {
                Some(CharacterType::Witch)
            } else {
                None
            },
    {
        if str_eq(name, "Witcher") {
            Some(CharacterType::Witcher)
        } else if str_eq(name, "Witch") {
            Some(CharacterType::Witch)
        } else {
            None
        }
    }
}

/// How many frames each animation of a character has.
#[derive(Clone, Copy, Debug, PartialEq, Eq)]
pub struct AnimationFrames {
    pub run: usize,
    pub idle: usize,
    pub jumping: usize,
    pub attack1: usize,
    pub attack2: usize,
    pub death: usize,
    pub take_hit: usize,
    pub fall: usize,
}

/// The frame counts of both characters.
#[derive(Clone, Copy, Debug, PartialEq, Eq)]
pub struct CharacterAnimationFrames {
    pub witcher: AnimationFrames,
    pub witch: AnimationFrames,
}

impl CharacterAnimationFrames {
    /// The frame counts of the sprite sheets that the game ships.
    pub open spec fn shipped() -> CharacterAnimationFrames {
        CharacterAnimationFrames {
            witcher: AnimationFrames {
                run: 8,
                idle: 8,
                jumping: 2,
                attack1: 8,
                attack2: 8,
                death: 7,
                take_hit: 3,
                fall: 2,
            },
            witch: AnimationFrames {
                run: 8,
                idle: 6,
                jumping: 5,
                attack1: 9,
                attack2: 9,
                death: 12,
                take_hit: 3,
                fall: 5,
            },
        }
    }

    pub fn new() -> (frames: Self)
        ensures
            frames == CharacterAnimationFrames::shipped(),
    {
        CharacterAnimationFrames {
            witcher: AnimationFrames {
                run: 8,
                idle: 8,
                jumping: 2,
                attack1: 8,
                attack2: 8,
                death: 7,
                take_hit: 3,
                fall: 2,
            },
            witch: AnimationFrames {
                run: 8,
                idle: 6,
                jumping: 5,
                attack1: 9,
                attack2: 9,
                death: 12,
                take_hit: 3,
                fall: 5,
            },
        }
    }

    /// The frame counts of a character.
    pub fn of(&self, character_type: CharacterType) -> (frames: AnimationFrames)
        ensures
            frames == match character_type {
                CharacterType::Witcher => self.witcher,
                CharacterType::Witch => self.witch,
            },
    {
        match character_type {
            CharacterType::Witcher => self.witcher,
            CharacterType::Witch => self.witch,
        }
    }
}

/// The animation state of an entity that is not attacking: jumping in the
/// air, running where it moves on the ground, idle where it stands.
pub open spec fn resting_state(on_ground: bool, moving: bool) -> PlayerState {
    if !on_ground {
        PlayerState::Jumping
    } else if moving {
        PlayerState::Running
    } else {
        PlayerState::Idle
    }
}

/// Whether every animation has a frame.
pub open spec fn has_frames(frames: AnimationFrames) -> bool {
    &&& frames.run > 0
    &&& frames.idle > 0
    &&& frames.jumping > 0
    &&& frames.attack1 > 0
    &&& frames.attack2 > 0
    &&& frames.death > 0
}

impl Player {
    /// Whether the entity is in one of its attacks.
    pub open spec fn attacking(self) -> bool {
        self.wrapper.state == PlayerState::Attack1 || self.wrapper.state == PlayerState::Attack2
    }

    /// The damage that the entity's attack does in its present frame: 10 in
    /// frames 3 to 5 of the first attack, 15 in frames 4 to 6 of the second,
    /// none elsewhere and none from a dead entity.
    pub open spec fn damage_dealt(self) -> Option<i32> {
        if self.is_dead {
            None
        } else if self.wrapper.state == PlayerState::Attack1 && 3 <= self.attack_frame <= 5 {
            Some(10i32)
        } else if self.wrapper.state == PlayerState::Attack2 && 4 <= self.attack_frame <= 6 {
            Some(15i32)
        } else {
            None
        }
    }

    /// The entity after a hit of `damage`: it loses that much health, and
    /// dies where none is left.
    pub open spec fn hit(self, damage: i32) -> Player {
        if self.health - damage <= 0 {
            Player {
                health: 0,
                is_dead: true,
                wrapper: DataWrapper { state: PlayerState::Death, ..self.wrapper },
                death_frame: 0,
                current_frame: 0,
                speed: (0, 0),
                ..self
            }
        } else {
            Player { health: (self.health - damage) as i32, ..self }
        }
    }

    /// The entity after an animation tick while it lives.
    pub open spec fn ticked(self, frames: AnimationFrames, on_ground: bool, moving: bool) -> Player {
        let next = (self.current_frame + 1) as usize;
        match self.wrapper.state {
            PlayerState::Running => Player { current_frame: next % frames.run, ..self },
            PlayerState::Idle => Player { current_frame: next % frames.idle, ..self },
            PlayerState::Jumping => Player { current_frame: next % frames.jumping, ..self },
            PlayerState::Attack1 => if self.attack_frame < frames.attack1 - 1 {
                Player {
                    attack_frame: (self.attack_frame + 1) as usize,
                    current_frame: (self.attack_frame + 1) as usize,
                    ..self
                }
            } else {
                Player {
                    attack_frame: 0,
                    current_frame: 0,
                    wrapper: DataWrapper {
                        state: resting_state(on_ground, moving),
                        ..self.wrapper
                    },
                    ..self
                }
            },
            PlayerState::Attack2 => if self.attack_frame < frames.attack2 - 1 {
                Player {
                    attack_frame: (self.attack_frame + 1) as usize,
                    current_frame: (self.attack_frame + 1) as usize,
                    ..self
                }
            } else {
                Player {
                    attack_frame: 0,
                    current_frame: 0,
                    wrapper: DataWrapper {
                        state: resting_state(on_ground, moving),
                        ..self.wrapper
                    },
                    ..self
                }
            },
            PlayerState::Death => Player { current_frame: next, is_dead: true, ..self },
        }
    }

    pub fn attack_damage(&self) -> (damage: Option<i32>)
        ensures
            damage == self.damage_dealt(),
    {
        if self.is_dead {
            None
        } else if self.wrapper.state == PlayerState::Attack1 && self.attack_frame >= 3
            && self.attack_frame <= 5 {
            Some(10)
        } else if self.wrapper.state == PlayerState::Attack2 && self.attack_frame >= 4
            && self.attack_frame <= 6 {
            Some(15)
        } else {
            None
        }
    }

    /// Whether an attack of this entity can hurt `target`: another entity
    /// that lives.
    pub fn can_hurt(&self, target: &Player) -> (b: bool)
        ensures
            b == (target.wrapper.object_id != self.wrapper.object_id && !target.is_dead),
    {
        target.wrapper.object_id != self.wrapper.object_id && !target.is_dead
    }

    /// Takes a hit of `damage`, unless the entity is dead or `invincible`.
    /// Says whether the hit was taken.
    pub fn take_damage(&mut self, damage: i32, invincible: bool) -> (taken: bool)
        requires
            i32::MIN <= old(self).health - damage <= i32::MAX,
        ensures
            taken == !(old(self).is_dead || invincible),
            *final(self) == if taken {
                old(self).hit(damage)
            } else {
                *old(self)
            },
    {
        if self.is_dead || invincible {
            return false;
        }
        self.health = self.health - damage;
        if self.health <= 0 {
            self.health = 0;
            self.is_dead = true;
            self.wrapper.state = PlayerState::Death;
            self.death_frame = 0;
            self.current_frame = 0;
            self.speed = (0, 0);
        }
        true
    }

    /// Settles the animation state after the entity has moved: an attack
    /// that has just begun is marked, and an entity that is not attacking
    /// takes the state that its motion gives.
    pub fn settle_state(&mut self, prev_state: PlayerState, on_ground: bool, moving: bool)
        ensures
            *final(self) == (Player {
                animation_changed: old(self).animation_changed || (prev_state != old(self).wrapper.state && old(self).attacking()),
                wrapper: DataWrapper {
                    state: if old(self).attacking() {
                        old(self).wrapper.state
                    } else {
                        resting_state(on_ground, moving)
                    },
                    ..old(self).wrapper
                },
                ..*old(self)
            }),
    {
        let attacking = self.wrapper.state == PlayerState::Attack1 || self.wrapper.state
            == PlayerState::Attack2;
        if prev_state != self.wrapper.state && attacking {
            self.animation_changed = true;
        }
        if !attacking {
            self.wrapper.state = if !on_ground {
                PlayerState::Jumping
            } else if moving {
                PlayerState::Running
            } else {
                PlayerState::Idle
            };
        }
    }

    /// Advances the animation of a living entity by one frame.
    pub fn tick_frame(&mut self, frames: &AnimationFrames, on_ground: bool, moving: bool)
        requires
            has_frames(*frames),
            old(self).current_frame < usize::MAX,
            old(self).attack_frame < usize::MAX,
        ensures
            *final(self) == old(self).ticked(*frames, on_ground, moving),
    {
        self.current_frame = self.current_frame + 1;
        match self.wrapper.state {
            PlayerState::Running => {
                self.current_frame = self.current_frame % frames.run;
            },
            PlayerState::Idle => {
                self.current_frame = self.current_frame % frames.idle;
            },
            PlayerState::Jumping => {
                self.current_frame = self.current_frame % frames.jumping;
            },
            PlayerState::Attack1 => {
                if self.attack_frame < frames.attack1 - 1 {
                    self.attack_frame = self.attack_frame + 1;
                    self.current_frame = self.attack_frame;
                } else {
                    self.attack_frame = 0;
                    self.wrapper.state = if !on_ground {
                        PlayerState::Jumping
                    } else if moving {
                        PlayerState::Running
                    } else {
                        PlayerState::Idle
                    };
                    self.current_frame = 0;
                }
            },
            PlayerState::Attack2 => {
                if self.attack_frame < frames.attack2 - 1 {
                    self.attack_frame = self.attack_frame + 1;
                    self.current_frame = self.attack_frame;
                } else {
                    self.attack_frame = 0;
                    self.wrapper.state = if !on_ground {
                        PlayerState::Jumping
                    } else if moving {
                        PlayerState::Running
                    } else {
                        PlayerState::Idle
                    };
                    self.current_frame = 0;
                }
            },
            PlayerState::Death => {
                self.is_dead = true;
            },
        }
    }

    /// Advances the death animation by one frame; it stays on its last.
    pub fn handle_death_animation(&mut self, frames: &AnimationFrames)
        requires
            frames.death > 0,
        ensures
            *final(self) == if old(self).death_frame < frames.death - 1 {
                Player {
                    death_frame: (old(self).death_frame + 1) as usize,
                    current_frame: (old(self).death_frame + 1) as usize,
                    ..*old(self)
                }
            } else {
                *old(self)
            },
    {
        if self.death_frame < frames.death - 1 {
            self.death_frame = self.death_frame + 1;
            self.current_frame = self.death_frame;
        }
    }
}

} // verus!
