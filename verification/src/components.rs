//! The small shared vocabulary of the game: states, event kinds, render
//! layers, pick-up kinds, input and network channel settings.

use bevy::math::Vec2;
use vstd::prelude::*;
use crate::outside::zero_vec2;

verus! {

/// The address a client connects to, as "host:port".
pub struct ConnectProperties {
    pub adress: String,
}

/// Where the client is: in the main menu or in a game.
#[derive(Clone, Copy, Debug, PartialEq, Eq, Hash, Structural)]
pub enum ClientState {
    Menu,
    InGame,
}

impl Default for ClientState {
    fn default() -> (r: Self)
        ensures
            r == ClientState::Menu,
    {
        ClientState::Menu
    }
}

/// Marks the camera that renders the game into the low-resolution canvas.
pub struct PixelCamera;

/// Which camera setting the settings menu changed.
#[derive(Clone, Copy, Debug, PartialEq, Eq, Structural)]
pub enum ApplyCameraSettings {
    Tonemapping,
    BloomCompositeMode,
    Intensity,
    LowFrequencyBoost,
    LowFrequencyBoostCurvature,
    HighPassFrequency,
    Threshold,
    ThresholdSoftness,
    DebandDither,
}

/// The render layers of the game.
#[derive(Clone, Copy, Debug, PartialEq, Eq, Structural)]
pub enum GameRenderLayers {
    _Main,
    PixelCamera,
    PreviewCamera,
}

impl GameRenderLayers {
    /// The layer number: 0 main, 1 pixel camera, 2 ship preview.
    pub fn layer(&self) -> (r: u8)
        ensures
            r == match *self {
                GameRenderLayers::_Main => 0u8,
                GameRenderLayers::PixelCamera => 1u8,
                GameRenderLayers::PreviewCamera => 2u8,
            },
    {
        match self {
            GameRenderLayers::_Main => 0,
            GameRenderLayers::PixelCamera => 1,
            GameRenderLayers::PreviewCamera => 2,
        }
    }
}

/// Marks a pick-up in the world.
pub struct PowerUP;

/// Marks the icon sprite of a pick-up.
pub struct PowerUPImage;

/// Marks the spinning cube around a pick-up.
pub struct PowerUPCube;

/// Marks the ship shown in the customisation menu.
pub struct ShipPreview;

/// The kinds of pick-up.
#[derive(Clone, Copy, Debug, PartialEq, Eq, Hash, Structural)]
pub enum PowerUPType {
    Repair,
    ExtraDamage,
    Haste,
    SuperShield,
    Invisibility,
}

pub open spec fn texture_path_of(t: PowerUPType) -> Seq<char> {
    match t {
        PowerUPType::ExtraDamage => "powerups/extradamage.png"@,
        PowerUPType::Haste => "powerups/haste.png"@,
        PowerUPType::Repair => "powerups/repair.png"@,
        PowerUPType::SuperShield => "powerups/supershield.png"@,
        PowerUPType::Invisibility => "powerups/invisibility.png"@,
    }
}

/// The pick-up kind for each outcome of a roll in 0..=4: Repair,
/// ExtraDamage, Haste, SuperShield, and Invisibility for anything else.
pub open spec fn power_up_for_roll(roll: int) -> PowerUPType {
    if roll == 0 {
        PowerUPType::Repair
    } else if roll == 1 {
        PowerUPType::ExtraDamage
    } else if roll == 2 {
        PowerUPType::Haste
    } else if roll == 3 {
        PowerUPType::SuperShield
    } else {
        PowerUPType::Invisibility
    }
}

impl PowerUPType {
    /// The image of the pick-up kind.
    pub fn texture_path(&self) -> (r: String)
        ensures
            r@ == texture_path_of(*self),
    {
        match self {
            PowerUPType::ExtraDamage => { "powerups/extradamage.png".to_owned() },
            PowerUPType::Haste => { "powerups/haste.png".to_owned() },
            PowerUPType::Repair => { "powerups/repair.png".to_owned() },
            PowerUPType::SuperShield => { "powerups/supershield.png".to_owned() },
            PowerUPType::Invisibility => { "powerups/invisibility.png".to_owned() },
        }
    }

    /// The kind that an asteroid drops for the roll `roll`.
    pub fn from_roll(roll: usize) -> (r: PowerUPType)
        ensures
            r == power_up_for_roll(roll as int),
    {
        if roll == 0 {
            PowerUPType::Repair
        } else if roll == 1 {
            PowerUPType::ExtraDamage
        } else if roll == 2 {
            PowerUPType::Haste
        } else if roll == 3 {
            PowerUPType::SuperShield
        } else {
            PowerUPType::Invisibility
        }
    }
}

/// The kinds of pick-up effect a ship has. (How long and how strong each
/// effect is are floating-point values kept beside it by the game.)
pub struct ShipStatuses {
    current: Vec<PowerUPType>,
}

impl View for ShipStatuses {
    type V = Set<PowerUPType>;

    closed spec fn view(&self) -> Set<PowerUPType> {
        self.current@.to_set()
    }
}

fn has_kind(v: &Vec<PowerUPType>, kind: PowerUPType) -> (r: bool)
    ensures
        r == v@.contains(kind),
{
    let mut k: usize = 0;
    while k < v.len()
        invariant
            k <= v.len(),
            forall|j: int| 0 <= j < k ==> v@[j] != kind,
        decreases v.len() - k,
    {
        if v[k] == kind {
            return true;
        }
        k = k + 1;
    }
    false
}

proof fn lemma_take_step(s: Seq<PowerUPType>, i: int, u: PowerUPType)
    requires
        0 <= i < s.len(),
    ensures
        s.take(i + 1).contains(u) <==> (s.take(i).contains(u) || u == s[i]),
{
    if s.take(i + 1).contains(u) {
        let j = choose|j: int| 0 <= j < i + 1 && #[trigger] s.take(i + 1)[j] == u;
        if j < i {
            assert(s.take(i)[j] == u);
        }
    }
    if s.take(i).contains(u) {
        let j = choose|j: int| 0 <= j < i && #[trigger] s.take(i)[j] == u;
        assert(s.take(i + 1)[j] == u);
    }
    if u == s[i] {
        assert(s.take(i + 1)[i] == u);
    }
}

proof fn lemma_push_has(p: Seq<PowerUPType>, x: PowerUPType, u: PowerUPType)
    ensures
        p.push(x).contains(u) <==> (p.contains(u) || u == x),
{
    if p.push(x).contains(u) {
        let j = choose|j: int| 0 <= j < p.len() + 1 && #[trigger] p.push(x)[j] == u;
        if j < p.len() {
            assert(p[j] == u);
        }
    }
    if p.contains(u) {
        let j = choose|j: int| 0 <= j < p.len() && #[trigger] p[j] == u;
        assert(p.push(x)[j] == u);
    }
    if u == x {
        assert(p.push(x)[p.len() as int] == u);
    }
}

impl ShipStatuses {
    /// No effect yet.
    pub fn new() -> (r: Self)
        ensures
            r@ == Set::<PowerUPType>::empty(),
    {
        let r = ShipStatuses { current: Vec::new() };
        assert(r@ =~= Set::<PowerUPType>::empty());
        r
    }

    /// A pick-up of kind `kind` takes effect (again, if it already had).
    pub fn insert(&mut self, kind: PowerUPType)
        ensures
            final(self)@ == old(self)@.insert(kind),
    {
        if !has_kind(&self.current, kind) {
            self.current.push(kind);
            assert(self.current@.to_set() =~= old(self).current@.to_set().insert(kind)) by {
                assert forall|t: PowerUPType| self.current@.contains(t) <==> (old(
                    self,
                ).current@.contains(t) || t == kind) by {
                    lemma_push_has(old(self).current@, kind, t);
                }
            }
        } else {
            assert(old(self)@.insert(kind) =~= old(self)@);
        }
    }

    /// The kinds in effect, each once.
    pub fn kinds(&self) -> (r: Vec<PowerUPType>)
        ensures
            r@.to_set() == self@,
            r@.no_duplicates(),
    {
        let mut out: Vec<PowerUPType> = Vec::new();
        let mut i: usize = 0;
        while i < self.current.len()
            invariant
                i <= self.current.len(),
                out@.no_duplicates(),
                forall|u: PowerUPType| #[trigger] out@.contains(u) <==> self.current@.take(i as int).contains(u),
            decreases self.current.len() - i,
        {
            let t = self.current[i];
            let ghost prev = out@;
            let pushed = !has_kind(&out, t);
            if pushed {
                out.push(t);
                proof {
                    assert forall|a: int, b: int| 0 <= a < b < out@.len() implies out@[a] != out@[b] by {
                        if b == out@.len() - 1 {
                            assert(prev.contains(prev[a]));
                        }
                    }
                }
            }
            proof {
                assert forall|u: PowerUPType| #[trigger] out@.contains(u) <==> self.current@.take(i + 1).contains(u) by {
                    lemma_take_step(self.current@, i as int, u);
                    lemma_push_has(prev, t, u);
                    if !pushed {
                        assert(out@ == prev);
                    }
                }
            }
            i = i + 1;
        }
        assert(self.current@.take(i as int) =~= self.current@);
        assert(out@.to_set() =~= self@);
        out
    }

    /// Whether the ship deals extra damage.
    pub fn has_extra_damage(&self) -> (r: bool)
        ensures
            r == self@.contains(PowerUPType::ExtraDamage),
    {
        has_kind(&self.current, PowerUPType::ExtraDamage)
    }

    /// Whether the ship is hasted.
    pub fn has_haste(&self) -> (r: bool)
        ensures
            r == self@.contains(PowerUPType::Haste),
    {
        has_kind(&self.current, PowerUPType::Haste)
    }

    /// Whether the ship has the extra shield.
    pub fn has_super_shield(&self) -> (r: bool)
        ensures
            r == self@.contains(PowerUPType::SuperShield),
    {
        has_kind(&self.current, PowerUPType::SuperShield)
    }

    /// Whether the ship is invisible.
    pub fn has_invisibility(&self) -> (r: bool)
        ensures
            r == self@.contains(PowerUPType::Invisibility),
    {
        has_kind(&self.current, PowerUPType::Invisibility)
    }
}

/// How the player steers: turning with keys, or pointing with the mouse.
#[derive(Clone, Copy, Debug, PartialEq, Eq, Structural)]
pub enum InputType {
    Keyboard,
    Mouse,
}

/// The controls a client sends each frame.
pub struct InputKeys {
    pub up: bool,
    pub down: bool,
    pub left: bool,
    pub right: bool,
    pub rotate_left: bool,
    pub rotate_right: bool,
    pub rotation_target: Vec2,
    pub stabilize: bool,
    pub shoot: bool,
    pub dash: bool,
    pub fixed_camera_z: bool,
    pub input_type: InputType,
}

impl Default for InputKeys {
    /// Nothing pressed, mouse steering, the target at the origin.
    fn default() -> (r: Self)
        ensures
            !r.up && !r.down && !r.left && !r.right,
            !r.rotate_left && !r.rotate_right,
            !r.stabilize && !r.shoot && !r.dash && !r.fixed_camera_z,
            r.input_type == InputType::Mouse,
    {
        InputKeys {
            up: false,
            down: false,
            left: false,
            right: false,
            rotate_left: false,
            rotate_right: false,
            rotation_target: zero_vec2(),
            stabilize: false,
            shoot: false,
            dash: false,
            fixed_camera_z: false,
            input_type: InputType::Mouse,
        }
    }
}

/// How a network channel delivers its messages.
#[derive(Clone, Copy, Debug, PartialEq, Eq, Structural)]
pub enum SendKind {
    Unreliable,
    /// In order, resent after `resend_time_ms` milliseconds without an ack.
    ReliableOrdered { resend_time_ms: u64 },
}

/// The settings of one network channel.
#[derive(Clone, Copy, Debug, PartialEq, Eq, Structural)]
pub struct ChannelSpec {
    pub channel_id: u8,
    pub max_memory_usage_bytes: usize,
    pub send_type: SendKind,
}

/// The settings of a client-server connection.
pub struct ConnectionSpec {
    pub available_bytes_per_tick: u64,
    pub client_channels_config: Vec<ChannelSpec>,
    pub server_channels_config: Vec<ChannelSpec>,
}

/// The channels a client sends on.
#[derive(Clone, Copy, Debug, PartialEq, Eq, Structural)]
pub enum ClientChannel {
    Fast,
    Garanteed,
}

/// The channels a server sends on.
#[derive(Clone, Copy, Debug, PartialEq, Eq, Structural)]
pub enum ServerChannel {
    Fast,
    Garanteed,
}

impl From<ClientChannel> for u8 {
    fn from(channel_id: ClientChannel) -> (r: u8) {
        match channel_id {
            ClientChannel::Fast => 0,
            ClientChannel::Garanteed => 1,
        }
    }
}

impl vstd::std_specs::convert::FromSpecImpl<ClientChannel> for u8 {
    open spec fn obeys_from_spec() -> bool {
        true
    }

    open spec fn from_spec(v: ClientChannel) -> u8 {
        match v {
            ClientChannel::Fast => 0u8,
            ClientChannel::Garanteed => 1u8,
        }
    }
}

impl From<ServerChannel> for u8 {
    fn from(channel_id: ServerChannel) -> (r: u8) {
        match channel_id {
            ServerChannel::Fast => 0,
            ServerChannel::Garanteed => 1,
        }
    }
}

impl vstd::std_specs::convert::FromSpecImpl<ServerChannel> for u8 {
    open spec fn obeys_from_spec() -> bool {
        true
    }

    open spec fn from_spec(v: ServerChannel) -> u8 {
        match v {
            ServerChannel::Fast => 0u8,
            ServerChannel::Garanteed => 1u8,
        }
    }
}

pub open spec fn client_channels() -> Seq<ChannelSpec> {
    seq![
        ChannelSpec {
            channel_id: 0,
            max_memory_usage_bytes: 5242880usize,
            send_type: SendKind::ReliableOrdered { resend_time_ms: 0 },
        },
        ChannelSpec {
            channel_id: 1,
            max_memory_usage_bytes: 5242880usize,
            send_type: SendKind::ReliableOrdered { resend_time_ms: 200 },
        },
    ]
}

pub open spec fn server_channels() -> Seq<ChannelSpec> {
    seq![
        ChannelSpec {
            channel_id: 0,
            max_memory_usage_bytes: 10485760usize,
            send_type: SendKind::Unreliable,
        },
        ChannelSpec {
            channel_id: 1,
            max_memory_usage_bytes: 10485760usize,
            send_type: SendKind::ReliableOrdered { resend_time_ms: 200 },
        },
    ]
}

impl ClientChannel {
    /// The fast channel: reliable, ordered, resent at once; the guaranteed
    /// channel: reliable, ordered, resent after 200 ms; 5 MiB each.
    pub fn channels_config() -> (r: Vec<ChannelSpec>)
        ensures
            r@ == client_channels(),
    {
        let fast: u8 = ClientChannel::Fast.into();
        let garanteed: u8 = ClientChannel::Garanteed.into();
        let v = vec![
            ChannelSpec {
                channel_id: fast,
                max_memory_usage_bytes: 5242880usize,
                send_type: SendKind::ReliableOrdered { resend_time_ms: 0 },
            },
            ChannelSpec {
                channel_id: garanteed,
                max_memory_usage_bytes: 5242880usize,
                send_type: SendKind::ReliableOrdered { resend_time_ms: 200 },
            },
        ];
        assert(v@ =~= client_channels());
        v
    }
}

impl ServerChannel {
    /// The fast channel: unreliable; the guaranteed channel: reliable,
    /// ordered, resent after 200 ms; 10 MiB each.
    pub fn channels_config() -> (r: Vec<ChannelSpec>)
        ensures
            r@ == server_channels(),
    {
        let fast: u8 = ServerChannel::Fast.into();
        let garanteed: u8 = ServerChannel::Garanteed.into();
        let v = vec![
            ChannelSpec {
                channel_id: fast,
                max_memory_usage_bytes: 10485760usize,
                send_type: SendKind::Unreliable,
            },
            ChannelSpec {
                channel_id: garanteed,
                max_memory_usage_bytes: 10485760usize,
                send_type: SendKind::ReliableOrdered { resend_time_ms: 200 },
            },
        ];
        assert(v@ =~= server_channels());
        v
    }
}

/// The connection both sides use: 1 MiB per tick, and the two channel sets.
pub fn connection_config() -> (r: ConnectionSpec)
    ensures
        r.available_bytes_per_tick == 1024 * 1024,
        r.client_channels_config@ == client_channels(),
        r.server_channels_config@ == server_channels(),
{
    ConnectionSpec {
        available_bytes_per_tick: 1024 * 1024,
        client_channels_config: ClientChannel::channels_config(),
        server_channels_config: ServerChannel::channels_config(),
    }
}

} // verus!
