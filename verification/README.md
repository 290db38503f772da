# cub_ip_app

A bridge between the KubIp controller and an MQTT broker. It polls the device
for its status document, publishes the temperature, relay, time relay and input
pin states as retained messages, and turns commands received over MQTT into
relay requests to the device.

Layout:

- `src/` is the verified library:
  - `config.rs`: reading the configuration (timeouts, log level);
  - `cub_ip_client.rs`: the HTTP requests to the device, relay action paths,
    checking the answer, taking the status document out of a response;
  - `mqtt_client.rs`: the topics and the decoding of command messages;
  - `publisher.rs`: the published form of each status value and the publisher
    that only republishes what changed;
  - `control.rs`: the decisions of the three loops (polling the device,
    keeping the broker connected, taking commands) as state/event functions;
  - `common.rs`: the shared types; `text.rs`: characters, splitting, decimals.
- `app/` is the program around it: configuration file, TCP, MQTT, XML, logging.
- `tests/` holds the tests of the library.
