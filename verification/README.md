# govee2mqtt

A bridge between Govee devices and Home Assistant over MQTT. It finds the
devices through the Govee Platform API, the account API and the LAN API,
registers an entity for each of their features with Home Assistant, carries
out the commands that arrive where this build has a channel for them (LAN,
Platform API; segment, temperature, oscillation and IoT controls are
refused with an error), and publishes the devices' state.

## Layout

- `src/` is the library, verified with Verus. It holds the decisions of the
  bridge, each with a contract:
  - `ble`: the BLE packet format (framing, checksums, the humidifier
    codecs) and its round trip;
  - `lan_api`: discovery settings, scan addresses, retry intervals and the
    requests of the LAN protocol;
  - `platform_api`: the Platform API's device model and the control
    requests built from it (power, brightness, colour, scenes, music);
  - `undoc_api`: the account API's data, one-click shortcuts and the light
    effect library;
  - `device`, `device_database`: the devices known to the bridge and the
    persisted database, sorted by id;
  - `hass`, `hass_mqtt`, `entities`, `work_mode`: topics, entity
    configurations, the plan of a device's entities, and work modes;
  - `state`, `iot`, `cache`, `api_lockout`: routing of commands, polling,
    startup, IoT state reports, the cache's rules and API lockouts;
  - `pfx`: which PKCS#12 containers are handed to the `p12` crate, and the
    keys and certificates taken out of them;
  - `strings`, `env`, `temperature`, `quirks`, `rest_api`, `clock`,
    `version_info`: supporting pieces.
- `tests/` exercises the library on concrete values.
- `app/` is the program around the library: the command line, UDP, HTTP,
  MQTT, the IoT connection, files, the cache store, and temperature
  arithmetic in floating point.
