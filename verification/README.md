# malstrom

Building blocks of Malstrom, a distributed, stateful stream processor, with
their behaviour stated in contracts and proved with Verus.

- `src/` is the verified library: message types, keyed and broadcast
  routing, timestamp assignment and epoch generation, stateful operators and
  sinks, sources, the commit log of the snapshot store, the communication
  utility of distributed operators, the Kafka sink configuration, and the
  names, labels, environment, commands and replica counts of a job's
  Kubernetes resources together with its rescale steps.
- `tests/` exercises the library on concrete values.
- `app/` is the unverified glue around it: the Kubernetes operator's API
  calls and the resource objects assembled from those values, the Kafka producer, the SlateDB snapshot store
  and asynchronous polling of sources.
