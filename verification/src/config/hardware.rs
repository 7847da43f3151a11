//! Hardware configuration.

use vstd::prelude::*;
use crate::config::toml::{
    copy_string, ChipModel, DfuTomlConfig, ExternalFlashDriver, ExternalFlashTomlConfig,
    KeyboardTomlConfig, LayoutConfig, Section, SpiConfig, SplitBoardConfig, StorageConfig,
};
use crate::text::{decimal, decimal_text};

verus! {

/// Storage sectors without a DFU section, and with one.
pub const DEFAULT_NUM_SECTORS: u8 = 2;

pub const DEFAULT_NUM_SECTORS_DFU: u8 = 8;

/// Most keys of an unlock combination.
pub const UNLOCK_KEYS_MAX: usize = 4;

/// Sector erase size of the flash that a download partition lies in.
pub const SECTOR_ERASE_SIZE: u32 = 4096;

/// Resolved storage hardware config.
#[derive(Clone, Copy, Debug, PartialEq, Eq, Structural)]
pub struct Storage {
    pub start_addr: usize,
    pub num_sectors: u8,
    pub clear_storage: bool,
    pub clear_layout: bool,
}

#[derive(Debug)]
pub struct PinConfig {
    pub pin: String,
    pub low_active: bool,
}

/// Resolved DFU partition config.
#[derive(Debug)]
pub struct DfuConfig {
    pub led: Option<PinConfig>,
    pub unlock_keys: Vec<[u8; 2]>,
    pub external_flash: Option<ExternalFlashConfig>,
}

/// Resolved config for external SPI flash used as DFU partition.
#[derive(Debug)]
pub struct ExternalFlashConfig {
    pub driver: ExternalFlashDriver,
    pub flash_size: u32,
    /// Size of the DFU download partition; defaults to `flash_size` when unset.
    pub dfu_partition_size: u32,
    pub init_fn: Option<String>,
    pub spi: SpiConfig,
}

/// Complete hardware configuration for init code generation.
#[derive(Debug)]
pub struct Hardware {
    pub chip: ChipModel,
    pub chip_config: Section,
    pub communication: Section,
    pub board: Section,
    pub storage: Option<Storage>,
    pub dfu: Option<DfuConfig>,
    pub light: Section,
    pub display: Option<Section>,
    pub output: Vec<Section>,
    pub dependency: Section,
}

// ---------------------------------------------------------------------------
// Storage
// ---------------------------------------------------------------------------

/// What a storage section resolves to. With a DFU section only a number of
/// sectors that the user set counts.
pub open spec fn storage_of(t: StorageConfig, has_dfu: bool, user_set: bool) -> Option<Storage> {
    if t.enabled {
        Some(
            Storage {
                start_addr: match t.start_addr {
                    Some(a) => a,
                    None => 0,
                },
                num_sectors: match t.num_sectors {
                    Some(n) => if has_dfu && !user_set {
                        DEFAULT_NUM_SECTORS_DFU
                    } else {
                        n
                    },
                    None => if has_dfu {
                        DEFAULT_NUM_SECTORS_DFU
                    } else {
                        DEFAULT_NUM_SECTORS
                    },
                },
                clear_storage: t.clear_storage == Some(true),
                clear_layout: t.clear_layout == Some(true),
            },
        )
    } else {
        None
    }
}

pub fn resolve_storage(t: StorageConfig, has_dfu: bool, user_set: bool) -> (r: Option<Storage>)
    ensures
        r == storage_of(t, has_dfu, user_set),
{
    if !t.enabled {
        return None;
    }
    let num_sectors: u8 = if has_dfu {
        if user_set {
            t.num_sectors.unwrap_or(DEFAULT_NUM_SECTORS_DFU)
        } else {
            DEFAULT_NUM_SECTORS_DFU
        }
    } else {
        t.num_sectors.unwrap_or(DEFAULT_NUM_SECTORS)
    };
    Some(
        Storage {
            start_addr: t.start_addr.unwrap_or(0),
            num_sectors,
            clear_storage: t.clear_storage.unwrap_or(false),
            clear_layout: t.clear_layout.unwrap_or(false),
        },
    )
}

// ---------------------------------------------------------------------------
// DFU
// ---------------------------------------------------------------------------

pub open spec fn too_many_unlock_keys_message(section: Seq<char>, count: nat) -> Seq<char> {
    section + ".unlock_keys has "@ + decimal(count) + " entries, but the max is 4"@
}

pub open spec fn unlock_key_outside_message(
    section: Seq<char>,
    key: [u8; 2],
    layout: LayoutConfig,
) -> Seq<char> {
    section + ".unlock_keys position ("@ + decimal(key@[0] as nat) + ", "@ + decimal(
        key@[1] as nat,
    ) + ") is outside the "@ + decimal(layout.rows as nat) + "x"@ + decimal(layout.cols as nat)
        + " matrix"@
}

pub open spec fn key_inside(key: [u8; 2], layout: LayoutConfig) -> bool {
    key@[0] < layout.rows && key@[1] < layout.cols
}

/// The message for the first key outside the matrix, if there is one.
pub open spec fn first_key_outside(
    section: Seq<char>,
    keys: Seq<[u8; 2]>,
    layout: LayoutConfig,
) -> Option<Seq<char>>
    decreases keys.len(),
{
    if keys.len() == 0 {
        None
    } else if !key_inside(keys[0], layout) {
        Some(unlock_key_outside_message(section, keys[0], layout))
    } else {
        first_key_outside(section, keys.drop_first(), layout)
    }
}

/// Why an unlock combination is refused, if it is: too many keys, or a key
/// outside the matrix.
pub open spec fn unlock_keys_error(
    section: Seq<char>,
    keys: Seq<[u8; 2]>,
    layout: Option<LayoutConfig>,
) -> Option<Seq<char>> {
    if keys.len() > UNLOCK_KEYS_MAX {
        Some(too_many_unlock_keys_message(section, keys.len()))
    } else {
        match layout {
            Some(l) => first_key_outside(section, keys, l),
            None => None,
        }
    }
}

pub fn validate_unlock_keys(
    section: &str,
    keys: &Vec<[u8; 2]>,
    layout: Option<LayoutConfig>,
) -> (r: Result<(), String>)
    ensures
        match r {
            Ok(()) => unlock_keys_error(section@, keys@, layout) is None,
            Err(e) => unlock_keys_error(section@, keys@, layout) == Some(e@),
        },
{
    if keys.len() > UNLOCK_KEYS_MAX {
        let mut s = String::from_str(section);
        s.append(".unlock_keys has ");
        s.append(decimal_text(keys.len() as u64).as_str());
        s.append(" entries, but the max is 4");
        return Err(s);
    }
    if let Some(l) = layout {
        let mut i: usize = 0;
        assert(keys@.subrange(0, keys@.len() as int) =~= keys@);
        while i < keys.len()
            invariant
                i <= keys@.len(),
                keys@.len() <= UNLOCK_KEYS_MAX,
                layout == Some(l),
                first_key_outside(section@, keys@, l) == first_key_outside(
                    section@,
                    keys@.subrange(i as int, keys@.len() as int),
                    l,
                ),
            decreases keys@.len() - i,
        {
            let key = keys[i];
            let ghost tail = keys@.subrange(i as int, keys@.len() as int);
            assert(tail[0] == key);
            assert(tail.drop_first() =~= keys@.subrange(i + 1, keys@.len() as int));
            if key[0] >= l.rows || key[1] >= l.cols {
                let mut s = String::from_str(section);
                s.append(".unlock_keys position (");
                s.append(decimal_text(key[0] as u64).as_str());
                s.append(", ");
                s.append(decimal_text(key[1] as u64).as_str());
                s.append(") is outside the ");
                s.append(decimal_text(l.rows as u64).as_str());
                s.append("x");
                s.append(decimal_text(l.cols as u64).as_str());
                s.append(" matrix");
                return Err(s);
            }
            i = i + 1;
        }
        assert(keys@.subrange(i as int, keys@.len() as int).len() == 0);
    }
    Ok(())
}

/// Why a download partition of that size is refused, if it is.
pub open spec fn partition_error(flash_size: u32, size: u32) -> Option<Seq<char>> {
    if size == 0 || size > flash_size {
        Some(
            "[dfu.external_flash] dfu_partition_size ("@ + decimal(size as nat)
                + ") must be between 1 and flash_size ("@ + decimal(flash_size as nat) + ")"@,
        )
    } else if size % SECTOR_ERASE_SIZE != 0 {
        Some(
            "[dfu.external_flash] dfu_partition_size ("@ + decimal(size as nat)
                + ") must be a multiple of 4096 (sector erase size)"@,
        )
    } else {
        None
    }
}

/// The DFU download partition must fit the flash and respect the sector erase
/// granularity, matching what the W25Q driver can actually erase.
pub fn validate_dfu_partition_size(flash_size: u32, dfu_partition_size: u32) -> (r: Result<
    (),
    String,
>)
    ensures
        match r {
            Ok(()) => partition_error(flash_size, dfu_partition_size) is None,
            Err(e) => partition_error(flash_size, dfu_partition_size) == Some(e@),
        },
{
    if dfu_partition_size == 0 || dfu_partition_size > flash_size {
        let mut s = String::from_str("[dfu.external_flash] dfu_partition_size (");
        s.append(decimal_text(dfu_partition_size as u64).as_str());
        s.append(") must be between 1 and flash_size (");
        s.append(decimal_text(flash_size as u64).as_str());
        s.append(")");
        return Err(s);
    }
    if dfu_partition_size % SECTOR_ERASE_SIZE != 0 {
        let mut s = String::from_str("[dfu.external_flash] dfu_partition_size (");
        s.append(decimal_text(dfu_partition_size as u64).as_str());
        s.append(") must be a multiple of 4096 (sector erase size)");
        return Err(s);
    }
    Ok(())
}

pub open spec fn partition_size(ef: ExternalFlashTomlConfig) -> u32 {
    match ef.dfu_partition_size {
        Some(size) => size,
        None => ef.flash_size,
    }
}

pub open spec fn unlock_keys_of(d: DfuTomlConfig) -> Seq<[u8; 2]> {
    match d.unlock_keys {
        Some(keys) => keys@,
        None => Seq::empty(),
    }
}

/// Why an external flash is refused, if it is: a custom driver without its init
/// function, or a download partition that does not fit.
pub open spec fn external_flash_error(ef: ExternalFlashTomlConfig) -> Option<Seq<char>> {
    if ef.driver == ExternalFlashDriver::Custom && ef.init_fn is None {
        Some("[dfu.external_flash] init_fn is required when driver = \"custom\""@)
    } else {
        partition_error(ef.flash_size, partition_size(ef))
    }
}

/// Why a DFU section is refused, if it is.
pub open spec fn dfu_error(
    section: Seq<char>,
    d: DfuTomlConfig,
    layout: Option<LayoutConfig>,
) -> Option<Seq<char>> {
    match unlock_keys_error(section, unlock_keys_of(d), layout) {
        Some(e) => Some(e),
        None => match d.external_flash {
            Some(ef) => external_flash_error(ef),
            None => None,
        },
    }
}

pub open spec fn external_flash_resolves(
    t: ExternalFlashTomlConfig,
    r: ExternalFlashConfig,
) -> bool {
    &&& r.driver == t.driver
    &&& r.flash_size == t.flash_size
    &&& r.dfu_partition_size == partition_size(t)
    &&& r.init_fn == t.init_fn
    &&& r.spi == t.spi
}

pub open spec fn dfu_resolves(d: DfuTomlConfig, r: DfuConfig) -> bool {
    &&& r.led == match d.led {
        Some(pin) => Some(PinConfig { pin, low_active: false }),
        None => None,
    }
    &&& r.unlock_keys@ == unlock_keys_of(d)
    &&& match (d.external_flash, r.external_flash) {
        (Some(t), Some(e)) => external_flash_resolves(t, e),
        (None, None) => true,
        _ => false,
    }
}

/// The outcome of resolving a DFU section that may be missing.
pub open spec fn dfu_outcome(
    section: Seq<char>,
    d: Option<DfuTomlConfig>,
    layout: Option<LayoutConfig>,
    r: Result<Option<DfuConfig>, String>,
) -> bool {
    match (d, r) {
        (None, Ok(None)) => true,
        (Some(d), Ok(Some(c))) => dfu_error(section, d, layout) is None && dfu_resolves(d, c),
        (Some(d), Err(e)) => dfu_error(section, d, layout) == Some(e@),
        _ => false,
    }
}

/// The section that a side's DFU config comes from, and its name. `None` is the
/// central. A side's own section completely replaces the global one.
pub open spec fn side_section(c: KeyboardTomlConfig, side: Option<usize>) -> (
    Option<DfuTomlConfig>,
    Seq<char>,
) {
    match side {
        Some(id) => if c.split is Some && id < c.split->Some_0.peripheral@.len()
            && c.split->Some_0.peripheral@[id as int].dfu is Some {
            (
                c.split->Some_0.peripheral@[id as int].dfu,
                "[split.peripheral["@ + decimal(id as nat) + "].dfu]"@,
            )
        } else {
            (c.dfu, "[dfu]"@)
        },
        None => if c.split is Some && c.split->Some_0.central.dfu is Some {
            (c.split->Some_0.central.dfu, "[split.central.dfu]"@)
        } else {
            (c.dfu, "[dfu]"@)
        },
    }
}

fn copy_keys(keys: &Option<Vec<[u8; 2]>>) -> (r: Vec<[u8; 2]>)
    ensures
        r@ == match *keys {
            Some(k) => k@,
            None => Seq::empty(),
        },
{
    match keys {
        None => Vec::new(),
        Some(k) => {
            let mut out: Vec<[u8; 2]> = Vec::new();
            let mut i: usize = 0;
            while i < k.len()
                invariant
                    i <= k@.len(),
                    out@ == k@.subrange(0, i as int),
                decreases k@.len() - i,
            {
                out.push(k[i]);
                i = i + 1;
                assert(out@ =~= k@.subrange(0, i as int));
            }
            assert(k@.subrange(0, i as int) =~= k@);
            out
        },
    }
}

fn copy_spi(spi: &SpiConfig) -> (r: SpiConfig)
    ensures
        r == *spi,
{
    SpiConfig {
        instance: spi.instance.clone(),
        sck: spi.sck.clone(),
        mosi: spi.mosi.clone(),
        miso: spi.miso.clone(),
        cs: copy_string(&spi.cs),
    }
}

fn resolve_external_flash(ef: &ExternalFlashTomlConfig) -> (r: Result<ExternalFlashConfig, String>)
    ensures
        match r {
            Ok(c) => external_flash_error(*ef) is None && external_flash_resolves(*ef, c),
            Err(e) => external_flash_error(*ef) == Some(e@),
        },
{
    if ef.driver == ExternalFlashDriver::Custom && ef.init_fn.is_none() {
        return Err(
            String::from_str("[dfu.external_flash] init_fn is required when driver = \"custom\""),
        );
    }
    let dfu_partition_size: u32 = ef.dfu_partition_size.unwrap_or(ef.flash_size);
    match validate_dfu_partition_size(ef.flash_size, dfu_partition_size) {
        Err(e) => Err(e),
        Ok(()) => Ok(
            ExternalFlashConfig {
                driver: ef.driver,
                flash_size: ef.flash_size,
                dfu_partition_size,
                init_fn: copy_string(&ef.init_fn),
                spi: copy_spi(&ef.spi),
            },
        ),
    }
}

impl KeyboardTomlConfig {
    /// Resolve a raw TOML DFU section into the resolved [`DfuConfig`].
    ///
    /// `section` names the source for error messages (e.g. `"[dfu]"` or
    /// `"[split.peripheral[0].dfu]"`).
    pub fn resolve_dfu(&self, dfu: &Option<DfuTomlConfig>, section: &str) -> (r: Result<
        Option<DfuConfig>,
        String,
    >)
        ensures
            dfu_outcome(section@, *dfu, self.layout, r),
    {
        let d = match dfu {
            None => return Ok(None),
            Some(d) => d,
        };
        let unlock_keys = copy_keys(&d.unlock_keys);
        match validate_unlock_keys(section, &unlock_keys, self.layout) {
            Err(e) => return Err(e),
            Ok(()) => {},
        }
        let external_flash = match &d.external_flash {
            None => None,
            Some(ef) => match resolve_external_flash(ef) {
                Err(e) => return Err(e),
                Ok(c) => Some(c),
            },
        };
        let led = match &d.led {
            Some(pin) => Some(PinConfig { pin: pin.clone(), low_active: false }),
            None => None,
        };
        Ok(Some(DfuConfig { led, unlock_keys, external_flash }))
    }

    /// Resolve the effective DFU config for a split side.
    ///
    /// `None` (the central side) uses `[split.central.dfu]` when present,
    /// otherwise the global `[dfu]` section. A peripheral's own
    /// `[split.peripheral[i].dfu]` section, when present, **completely
    /// replaces** the global one; otherwise the peripheral falls back to the
    /// global section too. A side's own section never merges with the global
    /// one.
    pub fn split_side_dfu(&self, side: Option<usize>) -> (r: Result<Option<DfuConfig>, String>)
        ensures
            dfu_outcome(side_section(*self, side).1, side_section(*self, side).0, self.layout, r),
    {
        if let Some(split) = &self.split {
            match side {
                Some(id) => {
                    if id < split.peripheral.len() {
                        let own = &split.peripheral[id].dfu;
                        if own.is_some() {
                            let mut section = String::from_str("[split.peripheral[");
                            section.append(decimal_text(id as u64).as_str());
                            section.append("].dfu]");
                            return self.resolve_dfu(own, section.as_str());
                        }
                    }
                },
                None => {
                    if split.central.dfu.is_some() {
                        return self.resolve_dfu(&split.central.dfu, "[split.central.dfu]");
                    }
                },
            }
        }
        self.resolve_dfu(&self.dfu, "[dfu]")
    }

    /// Resolve hardware configuration from TOML config. The first section that
    /// cannot be resolved gives the error.
    pub fn hardware(&self) -> (r: Result<Hardware, String>)
        ensures
            hardware_outcome(*self, r),
    {
        let chip = match &self.chip {
            Err(e) => return Err(e.clone()),
            Ok(c) => ChipModel { series: c.series, chip: c.chip.clone() },
        };
        let communication = match &self.communication {
            Err(e) => return Err(e.clone()),
            Ok(s) => s.duplicate(),
        };
        let board = match &self.board {
            Err(e) => return Err(e.clone()),
            Ok(s) => s.duplicate(),
        };
        let storage = resolve_storage(self.storage, self.dfu.is_some(), self.storage_user_set);
        let dfu = match self.split_side_dfu(None) {
            Err(e) => return Err(e),
            Ok(d) => d,
        };
        let output = match &self.output {
            Err(e) => return Err(e.clone()),
            Ok(list) => copy_sections(list),
        };
        let display = match &self.display {
            Some(s) => Some(s.duplicate()),
            None => None,
        };
        Ok(
            Hardware {
                chip,
                chip_config: self.chip_config.duplicate(),
                communication,
                board,
                storage,
                dfu,
                light: self.light.duplicate(),
                display,
                output,
                dependency: self.dependency.duplicate(),
            },
        )
    }
}

fn copy_sections(list: &Vec<Section>) -> (r: Vec<Section>)
    ensures
        r@ == list@,
{
    let mut out: Vec<Section> = Vec::new();
    let mut i: usize = 0;
    while i < list.len()
        invariant
            i <= list@.len(),
            out@ == list@.subrange(0, i as int),
        decreases list@.len() - i,
    {
        out.push(list[i].duplicate());
        i = i + 1;
        assert(out@ =~= list@.subrange(0, i as int));
    }
    assert(list@.subrange(0, i as int) =~= list@);
    out
}

/// The outcome of resolving the hardware sections.
pub open spec fn hardware_outcome(c: KeyboardTomlConfig, r: Result<Hardware, String>) -> bool {
    let (dfu, section) = side_section(c, None);
    let bad_dfu = dfu is Some && dfu_error(section, dfu->Some_0, c.layout) is Some;
    if c.chip is Err {
        r == Err::<Hardware, String>(c.chip->Err_0)
    } else if c.communication is Err {
        r == Err::<Hardware, String>(c.communication->Err_0)
    } else if c.board is Err {
        r == Err::<Hardware, String>(c.board->Err_0)
    } else if bad_dfu {
        r matches Err(e) && dfu_error(section, dfu->Some_0, c.layout) == Some(e@)
    } else if c.output is Err {
        r == Err::<Hardware, String>(c.output->Err_0)
    } else {
        match r {
            Ok(h) => {
                &&& h.chip == c.chip->Ok_0
                &&& h.chip_config == c.chip_config
                &&& h.communication == c.communication->Ok_0
                &&& h.board == c.board->Ok_0
                &&& h.storage == storage_of(c.storage, c.dfu is Some, c.storage_user_set)
                &&& match (dfu, h.dfu) {
                    (None, None) => true,
                    (Some(d), Some(r)) => dfu_resolves(d, r),
                    _ => false,
                }
                &&& h.light == c.light
                &&& h.display == c.display
                &&& h.output@ == c.output->Ok_0@
                &&& h.dependency == c.dependency
            },
            Err(_) => false,
        }
    }
}

// ---------------------------------------------------------------------------
// Laws
// ---------------------------------------------------------------------------

/// A side with a section of its own takes nothing from the global one: changing
/// the global section changes nothing for it.
pub proof fn law_own_section_replaces_the_global_one(
    a: KeyboardTomlConfig,
    b: KeyboardTomlConfig,
    side: Option<usize>,
)
    requires
        a.split == b.split,
        a.split is Some,
        match side {
            Some(id) => id < a.split->Some_0.peripheral@.len()
                && a.split->Some_0.peripheral@[id as int].dfu is Some,
            None => a.split->Some_0.central.dfu is Some,
        },
    ensures
        side_section(a, side) == side_section(b, side),
{
}

/// A side without a section of its own has the global one.
pub proof fn law_without_own_section_the_global_one_holds(
    c: KeyboardTomlConfig,
    side: Option<usize>,
)
    requires
        match (c.split, side) {
            (None, _) => true,
            (Some(s), Some(id)) => id >= s.peripheral@.len() || s.peripheral@[id as int].dfu is None,
            (Some(s), None) => s.central.dfu is None,
        },
    ensures
        side_section(c, side) == (c.dfu, "[dfu]"@),
{
}

/// A partition that is accepted lies within the flash and can be erased sector by
/// sector.
pub proof fn law_an_accepted_partition_is_whole_sectors(flash_size: u32, size: u32)
    requires
        partition_error(flash_size, size) is None,
    ensures
        0 < size <= flash_size,
        exists|sectors: int| size == #[trigger] (sectors * SECTOR_ERASE_SIZE),
{
    let sectors = size as int / SECTOR_ERASE_SIZE as int;
    assert(size == sectors * SECTOR_ERASE_SIZE);
}

/// What a storage section resolves to: it starts where the file says, or at 0, and takes the
/// sectors that the file asks for. Without a DFU section two sectors are the default; with one
/// eight are, and a number that the user did not set does not count. Nothing is cleared unless
/// the file says so, and there is no storage where it is switched off.
pub proof fn law_storage_has_its_defaults(t: StorageConfig, has_dfu: bool, user_set: bool)
    ensures
        storage_of(t, has_dfu, user_set) is Some <==> t.enabled,
        storage_of(t, has_dfu, user_set) matches Some(s) ==> {
            &&& t.start_addr is None ==> s.start_addr == 0
            &&& t.start_addr matches Some(a) ==> s.start_addr == a
            &&& !has_dfu ==> s.num_sectors == (if t.num_sectors is Some {
                t.num_sectors->0
            } else {
                2
            })
            &&& has_dfu ==> s.num_sectors == (if t.num_sectors is Some && user_set {
                t.num_sectors->0
            } else {
                8
            })
            &&& s.clear_storage <==> t.clear_storage is Some && t.clear_storage->0
            &&& s.clear_layout <==> t.clear_layout is Some && t.clear_layout->0
        },
{
}

proof fn lemma_first_key_outside(section: Seq<char>, keys: Seq<[u8; 2]>, layout: LayoutConfig)
    ensures
        first_key_outside(section, keys, layout) is None <==> forall|i: int|
            0 <= i < keys.len() ==> (#[trigger] keys[i])@[0] < layout.rows && keys[i]@[1]
                < layout.cols,
    decreases keys.len(),
{
    if keys.len() > 0 {
        let t = keys.drop_first();
        lemma_first_key_outside(section, t, layout);
        if forall|i: int|
            0 <= i < t.len() ==> (#[trigger] t[i])@[0] < layout.rows && t[i]@[1] < layout.cols {
            assert forall|i: int| 0 <= i < keys.len() && i > 0 implies (#[trigger] keys[i])@[0]
                < layout.rows && keys[i]@[1] < layout.cols by {
                assert(t[i - 1] == keys[i]);
            }
        }
        if forall|i: int|
            0 <= i < keys.len() ==> (#[trigger] keys[i])@[0] < layout.rows && keys[i]@[1]
                < layout.cols {
            assert forall|i: int| 0 <= i < t.len() implies (#[trigger] t[i])@[0] < layout.rows
                && t[i]@[1] < layout.cols by {
                assert(t[i] == keys[i + 1]);
            }
            assert(keys[0]@[0] < layout.rows);
        }
    }
}

/// A DFU section is accepted exactly where it has at most four unlock keys, all of them in the
/// matrix where that is known, and an external flash has its driver's init function where it
/// needs one and a download partition that is not empty, fits the flash and ends on a sector.
pub proof fn law_a_dfu_section_is_accepted_where_it_fits(
    section: Seq<char>,
    d: DfuTomlConfig,
    layout: Option<LayoutConfig>,
)
    ensures
        dfu_error(section, d, layout) is None <==> {
            &&& d.unlock_keys matches Some(keys) ==> {
                &&& keys@.len() <= 4
                &&& layout matches Some(l) ==> forall|i: int|
                    0 <= i < keys@.len() ==> (#[trigger] keys@[i])@[0] < l.rows && keys@[i]@[1]
                        < l.cols
            }
            &&& d.external_flash matches Some(ef) ==> {
                let size = if ef.dfu_partition_size is Some {
                    ef.dfu_partition_size->0
                } else {
                    ef.flash_size
                };
                &&& ef.driver is Custom ==> ef.init_fn is Some
                &&& 0 < size <= ef.flash_size
                &&& size % 4096 == 0
            }
        },
{
    if layout is Some {
        lemma_first_key_outside(section, unlock_keys_of(d), layout->0);
    }
}

/// A resolved DFU section keeps what the file sets. Its LED is active high, and a download
/// partition whose size is not given takes the whole flash.
pub proof fn law_a_dfu_section_keeps_what_is_set(d: DfuTomlConfig, r: DfuConfig)
    requires
        dfu_resolves(d, r),
    ensures
        r.led is Some <==> d.led is Some,
        r.led matches Some(led) ==> led.pin == d.led->0 && !led.low_active,
        d.unlock_keys is None ==> r.unlock_keys@.len() == 0,
        d.unlock_keys matches Some(keys) ==> r.unlock_keys@ == keys@,
        r.external_flash is Some <==> d.external_flash is Some,
        r.external_flash matches Some(e) ==> {
            let t = d.external_flash->0;
            &&& e.driver == t.driver
            &&& e.flash_size == t.flash_size
            &&& e.dfu_partition_size == (if t.dfu_partition_size is Some {
                t.dfu_partition_size->0
            } else {
                t.flash_size
            })
            &&& e.init_fn == t.init_fn
            &&& e.spi == t.spi
        },
{
}

/// The hardware resolves exactly where each of its sections does.
pub proof fn law_hardware_needs_every_section(c: KeyboardTomlConfig, r: Result<Hardware, String>)
    requires
        hardware_outcome(c, r),
    ensures
        r is Ok <==> c.chip is Ok && c.communication is Ok && c.board is Ok && c.output is Ok && (
        side_section(c, None).0 matches Some(d) ==> dfu_error(
            side_section(c, None).1,
            d,
            c.layout,
        ) is None),
        r matches Ok(h) ==> h.chip == c.chip->Ok_0 && h.board == c.board->Ok_0 && h.communication
            == c.communication->Ok_0 && h.output@ == c.output->Ok_0@ && h.light == c.light
            && h.display == c.display && h.dependency == c.dependency && h.chip_config
            == c.chip_config && (h.dfu is Some <==> side_section(c, None).0 is Some) && (
        h.storage is Some <==> c.storage.enabled),
{
}

/// A refused unlock combination is told by the first of its keys that lies outside the matrix.
pub proof fn law_the_first_key_outside_is_told(
    section: Seq<char>,
    keys: Seq<[u8; 2]>,
    layout: LayoutConfig,
    i: int,
)
    requires
        0 <= i < keys.len(),
        keys[i]@[0] >= layout.rows || keys[i]@[1] >= layout.cols,
        forall|j: int|
            0 <= j < i ==> (#[trigger] keys[j])@[0] < layout.rows && keys[j]@[1] < layout.cols,
    ensures
        first_key_outside(section, keys, layout) == Some(
            unlock_key_outside_message(section, keys[i], layout),
        ),
    decreases keys.len(),
{
    if i > 0 {
        let t = keys.drop_first();
        assert(keys[0]@[0] < layout.rows);
        assert(t[i - 1] == keys[i]);
        assert forall|j: int| 0 <= j < i - 1 implies (#[trigger] t[j])@[0] < layout.rows && t[j]@[1]
            < layout.cols by {
            assert(t[j] == keys[j + 1]);
        }
        law_the_first_key_outside_is_told(section, t, layout, i - 1);
    }
}

} // verus!
