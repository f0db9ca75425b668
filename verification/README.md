# tdx_qgs

Tools that run the Intel TDX quote generation service on Kubernetes, with
their logic verified by Verus:

- an operator that deploys the quote generation service DaemonSet and, for
  online registration with Intel PCS, a registrar Deployment;
- a PCK certificate tool that publishes a node's platform data, registers
  platforms with Intel PCS, verifies the returned PCK certificates against the
  issuer chain, and writes the certificate cache file that the quote provider
  library reads;
- a fake platform info tool for clusters without SGX hardware.

## Layout

- `src/` — the verified library.
  - `text.rs`: trimming, splitting, hex and decimal text.
  - `operator/`: the resource model (`types`, `meta`, `status`), finalizers,
    node selectors, owner references, workload plans (`workload`), status
    decisions (`controller`) and the reconciliation state machine
    (`reconcile`).
  - `pck/`: the certificate cache format (`cache`), platform data and IDs
    (`platform`), PCS requests (`pcs_client`), PCK secret validity and plans
    (`registrar`), certificate filtering and the PIID (`certs`), the
    registration state machine (`registration`), and the calls into the
    encoding and X.509 crates (`encoding`, `x509`).
- `tests/` — tests of the library.
- `app/` — the programs: command line, Kubernetes and HTTP clients, files,
  and the serde/kube copies of the resource types. `tdx-qgs operator`,
  `tdx-qgs generate-crd`, `tdx-qgs pck-cert-tool ...` and
  `tdx-qgs fake-platform-info` select the program. The operator reads its
  workload templates (`daemonset.yaml`, `deployment.yaml`) from the
  directory named by `QGS_TEMPLATES_DIR` (default `templates`).
