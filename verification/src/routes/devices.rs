//! Device management.
use vstd::prelude::*;
use crate::models::{Device, DeviceConfig, SensorConfig, StatusSnapshot, UpdateConfig};
use crate::json::{json_of, jsons, lemma_json_of_array, lemma_json_of_object, members, Json, JsonValue};
use crate::config::opt_view;
use crate::json::or_else;
use crate::text::{decimal, push_decimal, sql_datetime_secs, sql_datetime_secs_spec, str_eq, string_of};

verus! {

broadcast use vstd::string::group_string_axioms;

pub struct ExportMetadata {
    pub export_date: String,
    pub firmware_version: Option<String>,
}

pub struct ExportDeviceInfo {
    pub name: String,
    pub hostname: String,
    pub purpose: Option<String>,
    pub personality: Option<String>,
    pub device_type: Option<String>,
}


/// Whether a device with a status recorded at `recorded_at` is online at `now` (Unix
/// seconds): its last report is readable and under 30 seconds old.
pub open spec fn is_online_spec(recorded_at: Option<Seq<char>>, now: i64) -> bool {
    match recorded_at {
        Some(r) => match sql_datetime_secs_spec(r) {
            Some(t) => now - t < 30,
            None => false,
        },
        None => false,
    }
}

/// Whether the device's latest status (if any) is recent enough to call it online.
pub fn is_online(status: &Option<StatusSnapshot>, now: i64) -> (r: bool)
    ensures
        r == is_online_spec(
            match status {
                Some(s) => Some(s.recorded_at@),
                None => None,
            },
            now,
        ),
{
    match status {
        Some(s) => match sql_datetime_secs(s.recorded_at.as_str()) {
            Some(t) => (now as i128) - (t as i128) < 30,
            None => false,
        },
        None => false,
    }
}

/// The melodies of a sound pack, one per avatar state `0` to `5`, as (frequency, duration)
/// notes; `None` for the default pack and unknown names.
pub open spec fn pack_melodies(pack: Seq<char>) -> Option<Seq<Seq<(u32, u32)>>> {
    if pack == "retro"@ {
        Some(seq![
            seq![(200u32, 80u32)],
            seq![(300u32, 60u32), (400u32, 60u32), (500u32, 60u32)],
            seq![(400u32, 80u32), (300u32, 80u32)],
            seq![(988u32, 80u32), (1319u32, 120u32)],
            seq![(660u32, 80u32), (880u32, 100u32)],
            seq![(440u32, 80u32), (330u32, 80u32), (220u32, 120u32)],
        ])
    } else if pack == "minimal"@ {
        Some(seq![
            seq![(1000u32, 20u32)],
            seq![(800u32, 15u32), (800u32, 15u32)],
            seq![(200u32, 100u32)],
            seq![(880u32, 40u32), (1100u32, 40u32)],
            seq![(660u32, 30u32)],
            seq![(150u32, 100u32)],
        ])
    } else if pack == "musical"@ {
        Some(seq![
            seq![(262u32, 100u32)],
            seq![(262u32, 80u32), (330u32, 80u32), (392u32, 80u32)],
            seq![(262u32, 100u32), (277u32, 100u32)],
            seq![(262u32, 80u32), (330u32, 80u32), (392u32, 80u32), (523u32, 120u32)],
            seq![(392u32, 80u32), (523u32, 100u32)],
            seq![(262u32, 80u32), (311u32, 80u32), (370u32, 120u32)],
        ])
    } else {
        None
    }
}

/// A note as JSON: `{"freq": f, "dur": d}`.
pub open spec fn note_json(n: (u32, u32)) -> Json {
    Json::Object(seq![("freq"@, Json::Number(decimal(n.0 as nat))), ("dur"@, Json::Number(decimal(n.1 as nat)))])
}

/// A melody as a JSON array of notes.
pub open spec fn melody_json(m: Seq<(u32, u32)>) -> Json {
    Json::Array(Seq::new(m.len(), |i: int| note_json(m[i])))
}

/// The payload that loads a sound pack: its name and its melodies keyed `"0"` to `"5"`.
pub open spec fn sound_pack_json(pack: Seq<char>, melodies: Seq<Seq<(u32, u32)>>) -> Json {
    Json::Object(seq![
        ("pack"@, Json::Str(pack)),
        ("melodies"@, Json::Object(Seq::new(6, |i: int| (decimal(i as nat), melody_json(melodies[i]))))),
    ])
}

fn number(n: u32) -> (v: JsonValue)
    ensures
        json_of(v) == Json::Number(decimal(n as nat)),
{
    let mut d: Vec<char> = Vec::new();
    push_decimal(&mut d, n as u64);
    JsonValue::Number(string_of(d.as_slice()))
}

fn melody(notes: &[(u32, u32)]) -> (v: JsonValue)
    ensures
        json_of(v) == melody_json(notes@),
{
    let mut items: Vec<JsonValue> = Vec::new();
    let mut i: usize = 0;
    while i < notes.len()
        invariant
            i <= notes@.len(),
            items@.len() == i,
            forall|j: int| 0 <= j < i ==> json_of(#[trigger] items@[j]) == note_json(notes@[j]),
        decreases notes@.len() - i,
    {
        let (f, d) = notes[i];
        let fields = vec![("freq".to_string(), number(f)), ("dur".to_string(), number(d))];
        proof {
            lemma_json_of_object(fields);
            assert(members(fields@) =~= seq![
                ("freq"@, Json::Number(decimal(f as nat))),
                ("dur"@, Json::Number(decimal(d as nat))),
            ]);
        }
        items.push(JsonValue::Object(fields));
        i = i + 1;
    }
    let v = JsonValue::Array(items);
    proof {
        lemma_json_of_array(items);
        assert(jsons(items@) =~= Seq::new(notes@.len(), |k: int| note_json(notes@[k])));
    }
    v
}

/// The sound payload for a pack name (`default` when none is stored): the pack's melodies,
/// or just `{"pack": "default"}`, which makes the device use its built-in melodies.
pub fn sound_pack_payload(pack: Option<&str>) -> (v: JsonValue)
    ensures
        ({
            let name = match pack {
                Some(p) => p@,
                None => "default"@,
            };
            json_of(v) == match pack_melodies(name) {
                Some(m) => sound_pack_json(name, m),
                None => Json::Object(seq![("pack"@, Json::Str("default"@))]),
            }
        }),
{
    let name: &str = match pack {
        Some(p) => p,
        None => "default",
    };
    let tables: Vec<Vec<(u32, u32)>> = if str_eq(name, "retro") {
        vec![
            vec![(200, 80)],
            vec![(300, 60), (400, 60), (500, 60)],
            vec![(400, 80), (300, 80)],
            vec![(988, 80), (1319, 120)],
            vec![(660, 80), (880, 100)],
            vec![(440, 80), (330, 80), (220, 120)],
        ]
    } else if str_eq(name, "minimal") {
        vec![
            vec![(1000, 20)],
            vec![(800, 15), (800, 15)],
            vec![(200, 100)],
            vec![(880, 40), (1100, 40)],
            vec![(660, 30)],
            vec![(150, 100)],
        ]
    } else if str_eq(name, "musical") {
        vec![
            vec![(262, 100)],
            vec![(262, 80), (330, 80), (392, 80)],
            vec![(262, 100), (277, 100)],
            vec![(262, 80), (330, 80), (392, 80), (523, 120)],
            vec![(392, 80), (523, 100)],
            vec![(262, 80), (311, 80), (370, 120)],
        ]
    } else {
        let f = vec![("pack".to_string(), JsonValue::Str("default".to_string()))];
        proof {
            lemma_json_of_object(f);
            assert(members(f@) =~= seq![("pack"@, Json::Str("default"@))]);
        }
        return JsonValue::Object(f);
    };
    let ghost m = pack_melodies(name@)->0;
    assert(tables@.len() == 6);
    assert(forall|k: int| 0 <= k < 6 ==> (#[trigger] tables@[k])@ == m[k]);
    let mut entries: Vec<(String, JsonValue)> = Vec::new();
    let mut i: usize = 0;
    while i < 6
        invariant
            i <= 6,
            tables@.len() == 6,
            forall|k: int| 0 <= k < 6 ==> (#[trigger] tables@[k])@ == m[k],
            entries@.len() == i,
            forall|j: int| 0 <= j < i ==> (#[trigger] entries@[j]).0@ == decimal(j as nat) && json_of(entries@[j].1)
                == melody_json(m[j]),
        decreases 6 - i,
    {
        let mut key: Vec<char> = Vec::new();
        push_decimal(&mut key, i as u64);
        let mv = melody(tables[i].as_slice());
        entries.push((string_of(key.as_slice()), mv));
        i = i + 1;
    }
    let melodies = JsonValue::Object(entries);
    proof {
        lemma_json_of_object(entries);
        assert(members(entries@) =~= Seq::new(6, |k: int| (decimal(k as nat), melody_json(m[k]))));
    }
    let f = vec![("pack".to_string(), JsonValue::Str(name.to_string())), ("melodies".to_string(), melodies)];
    proof {
        lemma_json_of_object(f);
        assert(members(f@) =~= seq![
            ("pack"@, Json::Str(name@)),
            ("melodies"@, Json::Object(Seq::new(6, |k: int| (decimal(k as nat), melody_json(m[k]))))),
        ]);
    }
    JsonValue::Object(f)
}


/// An automation rule without its id, as an export carries it.
pub struct ExportRule {
    pub name: String,
    pub enabled: bool,
    pub trigger_type: String,
    pub trigger_config: JsonValue,
    pub action_type: String,
    pub action_config: JsonValue,
    pub cooldown_secs: i64,
}

/// A device's configuration as a backup holds it.
pub struct ConfigExport {
    pub metadata: ExportMetadata,
    pub device_info: ExportDeviceInfo,
    pub device_config: DeviceConfig,
    pub servo_config: Option<JsonValue>,
    pub sensor_configs: Vec<SensorConfig>,
    pub automation_rules: Vec<ExportRule>,
}

/// What the server stores about one device that a backup carries: the device, its settings,
/// its sensor channels, and its automation rules with their ids alongside.
pub struct DeviceSetup {
    pub device: Device,
    pub config: DeviceConfig,
    pub sensors: Vec<SensorConfig>,
    pub rule_ids: Vec<String>,
    pub rules: Vec<ExportRule>,
}

/// `x` is the export of `s` made on `export_date`, with the firmware version last deployed and
/// the servo setup read from the live device, if any.
pub open spec fn exported(s: DeviceSetup, export_date: String, firmware_version: Option<String>, servo_config: Option<JsonValue>, x: ConfigExport) -> bool {
    &&& x.metadata.export_date == export_date
    &&& x.metadata.firmware_version == firmware_version
    &&& x.device_info.name == s.device.name
    &&& x.device_info.hostname == s.device.hostname
    &&& x.device_info.purpose == s.device.purpose
    &&& x.device_info.personality == s.device.personality
    &&& x.device_info.device_type == s.device.device_type
    &&& x.device_config == s.config
    &&& x.servo_config == servo_config
    &&& x.sensor_configs == s.sensors
    &&& x.automation_rules == s.rules
}

/// The backup of a device's configuration: its identity, settings, sensor channels and rules
/// (without their ids).
pub fn export_config(s: DeviceSetup, export_date: String, firmware_version: Option<String>, servo_config: Option<JsonValue>) -> (x: ConfigExport)
    ensures
        exported(s, export_date, firmware_version, servo_config, x),
{
    ConfigExport {
        metadata: ExportMetadata { export_date, firmware_version },
        device_info: ExportDeviceInfo {
            name: s.device.name,
            hostname: s.device.hostname,
            purpose: s.device.purpose,
            personality: s.device.personality,
            device_type: s.device.device_type,
        },
        device_config: s.config,
        servo_config,
        sensor_configs: s.sensors,
        automation_rules: s.rules,
    }
}

/// `a` is what device `t` stores after importing `x`, its new sensor rows and rules taking
/// `sensor_ids` and `rule_ids`: the purpose and personality the backup names (the device keeps
/// its name, address and type); the backup's settings, keeping the device's own colors, avatar
/// and custom data where the backup has none and taking the `default` sound pack where it names
/// none; and the backup's sensor channels and rules in place of the device's.
pub open spec fn imported(t: DeviceSetup, x: ConfigExport, sensor_ids: Seq<i64>, rule_ids: Seq<String>, a: DeviceSetup) -> bool {
    &&& a.device == (Device {
        purpose: if x.device_info.purpose is Some {
            x.device_info.purpose
        } else {
            t.device.purpose
        },
        personality: if x.device_info.personality is Some {
            x.device_info.personality
        } else {
            t.device.personality
        },
        ..t.device
    })
    &&& a.config.device_id == t.config.device_id
    &&& a.config.led_brightness == x.device_config.led_brightness
    &&& a.config.led_colors == if x.device_config.led_colors is Some {
        x.device_config.led_colors
    } else {
        t.config.led_colors
    }
    &&& a.config.sound_enabled == x.device_config.sound_enabled
    &&& a.config.sound_volume == x.device_config.sound_volume
    &&& a.config.avatar_preset == if x.device_config.avatar_preset is Some {
        x.device_config.avatar_preset
    } else {
        t.config.avatar_preset
    }
    &&& a.config.custom_data == if x.device_config.custom_data is Some {
        x.device_config.custom_data
    } else {
        t.config.custom_data
    }
    &&& x.device_config.sound_pack is Some ==> a.config.sound_pack == x.device_config.sound_pack
    &&& opt_view(a.config.sound_pack) == Some(or_else(opt_view(x.device_config.sound_pack), "default"@))
    &&& a.sensors@.len() == x.sensor_configs@.len()
    &&& forall|i: int| 0 <= i < a.sensors@.len() ==> #[trigger] a.sensors@[i] == (SensorConfig {
        id: sensor_ids[i],
        device_id: t.device.id,
        ..x.sensor_configs@[i]
    })
    &&& a.rule_ids@ == rule_ids
    &&& a.rules == x.automation_rules
}

fn clone_opt(o: &Option<String>) -> (r: Option<String>)
    ensures
        r == *o,
{
    match o {
        Some(s) => Some(s.clone()),
        None => None,
    }
}

/// Restores a backup onto device `t`; the new sensor rows and rules take the ids given.
pub fn import_config(t: DeviceSetup, x: ConfigExport, sensor_ids: Vec<i64>, rule_ids: Vec<String>) -> (a: DeviceSetup)
    requires
        sensor_ids@.len() == x.sensor_configs@.len(),
        rule_ids@.len() == x.automation_rules@.len(),
    ensures
        imported(t, x, sensor_ids@, rule_ids@, a),
{
    let ghost t0 = t;
    let ghost x0 = x;
    let mut device = t.device;
    match x.device_info.purpose {
        Some(p) => device.purpose = Some(p),
        None => {},
    }
    match x.device_info.personality {
        Some(p) => device.personality = Some(p),
        None => {},
    }
    let c = x.device_config;
    let pack = match c.sound_pack {
        Some(p) => Some(p),
        None => Some("default".to_string()),
    };
    let config = DeviceConfig {
        device_id: t.config.device_id,
        led_brightness: c.led_brightness,
        led_colors: match c.led_colors {
            Some(v) => Some(v),
            None => t.config.led_colors,
        },
        sound_enabled: c.sound_enabled,
        sound_volume: c.sound_volume,
        avatar_preset: match c.avatar_preset {
            Some(v) => Some(v),
            None => t.config.avatar_preset,
        },
        custom_data: match c.custom_data {
            Some(v) => Some(v),
            None => t.config.custom_data,
        },
        sound_pack: pack,
    };
    let mut sensors: Vec<SensorConfig> = Vec::new();
    let mut i: usize = 0;
    while i < x.sensor_configs.len()
        invariant
            x.sensor_configs == x0.sensor_configs,
            sensor_ids@.len() == x.sensor_configs@.len(),
            device.id == t0.device.id,
            i <= x.sensor_configs@.len(),
            sensors@.len() == i,
            forall|k: int| 0 <= k < i ==> #[trigger] sensors@[k] == (SensorConfig {
                id: sensor_ids@[k],
                device_id: t0.device.id,
                ..x0.sensor_configs@[k]
            }),
        decreases x.sensor_configs@.len() - i,
    {
        let src = &x.sensor_configs[i];
        sensors.push(SensorConfig {
            id: sensor_ids[i],
            device_id: device.id.clone(),
            channel: src.channel,
            pin: src.pin,
            sensor_type: src.sensor_type.clone(),
            label: clone_opt(&src.label),
            poll_interval_ms: src.poll_interval_ms,
            threshold: src.threshold,
        });
        i = i + 1;
    }
    DeviceSetup { device, config, sensors, rule_ids, rules: x.automation_rules }
}

/// Restoring a device's own backup gives back exactly what it stored, provided it names a sound
/// pack and its sensor rows are its own, when the sensor rows and rules get their old ids back.
pub proof fn lemma_import_of_own_export(s: DeviceSetup, export_date: String, firmware_version: Option<String>, servo_config: Option<JsonValue>, x: ConfigExport, a: DeviceSetup)
    requires
        exported(s, export_date, firmware_version, servo_config, x),
        imported(s, x, Seq::new(s.sensors@.len(), |i: int| s.sensors@[i].id), s.rule_ids@, a),
        s.config.sound_pack is Some,
        forall|i: int| 0 <= i < s.sensors@.len() ==> #[trigger] s.sensors@[i].device_id == s.device.id,
    ensures
        a.device == s.device,
        a.config == s.config,
        a.sensors@ == s.sensors@,
        a.rule_ids@ == s.rule_ids@,
        a.rules == s.rules,
{
    assert forall|i: int| 0 <= i < s.sensors@.len() implies #[trigger] a.sensors@[i] == s.sensors@[i] by {
        assert(s.sensors@[i].device_id == s.device.id);
    }
    assert(a.sensors@ =~= s.sensors@);
}

/// `a` holds settings `c` changed by `u`: every field the change gives replaces the stored one.
pub open spec fn config_updated(c: DeviceConfig, u: UpdateConfig, a: DeviceConfig) -> bool {
    &&& a.device_id == c.device_id
    &&& a.led_brightness == match u.led_brightness {
        Some(v) => v,
        None => c.led_brightness,
    }
    &&& a.led_colors == if u.led_colors is Some {
        u.led_colors
    } else {
        c.led_colors
    }
    &&& a.sound_enabled == match u.sound_enabled {
        Some(v) => v,
        None => c.sound_enabled,
    }
    &&& a.sound_volume == match u.sound_volume {
        Some(v) => v,
        None => c.sound_volume,
    }
    &&& a.avatar_preset == if u.avatar_preset is Some {
        u.avatar_preset
    } else {
        c.avatar_preset
    }
    &&& a.custom_data == if u.custom_data is Some {
        u.custom_data
    } else {
        c.custom_data
    }
    &&& a.sound_pack == if u.sound_pack is Some {
        u.sound_pack
    } else {
        c.sound_pack
    }
}

/// A device's settings after an update.
pub fn apply_config_update(c: DeviceConfig, u: UpdateConfig) -> (a: DeviceConfig)
    ensures
        config_updated(c, u, a),
{
    DeviceConfig {
        device_id: c.device_id,
        led_brightness: match u.led_brightness {
            Some(v) => v,
            None => c.led_brightness,
        },
        led_colors: match u.led_colors {
            Some(v) => Some(v),
            None => c.led_colors,
        },
        sound_enabled: match u.sound_enabled {
            Some(v) => v,
            None => c.sound_enabled,
        },
        sound_volume: match u.sound_volume {
            Some(v) => v,
            None => c.sound_volume,
        },
        avatar_preset: match u.avatar_preset {
            Some(v) => Some(v),
            None => c.avatar_preset,
        },
        custom_data: match u.custom_data {
            Some(v) => Some(v),
            None => c.custom_data,
        },
        sound_pack: match u.sound_pack {
            Some(v) => Some(v),
            None => c.sound_pack,
        },
    }
}


/// Sending the same settings change twice leaves a device's settings as the first time did.
pub proof fn lemma_config_update_idempotent(c: DeviceConfig, u: UpdateConfig, a: DeviceConfig, b: DeviceConfig)
    requires
        config_updated(c, u, a),
        config_updated(a, u, b),
    ensures
        b == a,
{
}

} // verus!
