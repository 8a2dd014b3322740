# mqtt_kv

A small distributed key-value store whose servers talk over MQTT, with the
protocol's logic verified by Verus.

- `src/` is the verified library: key placement (`responsibility`), request
  routing (`routing`), the server's value table with its dump and restore
  (`values_table`), the monitor's heartbeat table (`monitor`), messages,
  topics and client ids, and the decision steps of reconnecting and of
  reading a topic's last message.
- `app/` is the program around it: MQTT connections, threads, JSON, and the
  `server`, `client`, `monitor`, `pub` and `sub` commands.
- `tests/` runs the library on concrete values.
